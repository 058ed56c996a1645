//! The slideshow: which files are shown, in which order, and with which
//! media type.  File names follow the rules of `std::path::Path` on Unix.

use vstd::prelude::*;
use crate::http_error::{HttpError, BAD_REQUEST, UNSUPPORTED_MEDIA_TYPE};
use crate::text::{chars_of, lower_code, lower_code_of, lowercase_codes, lowercases_to, lowercases_to_word};

verus! {

/// The index just past the last `/` of `s` (0 when there is none): where
/// the last path segment starts.
pub open spec fn segment_start(s: Seq<char>) -> int
    decreases s.len(),
{
    if s.len() == 0 {
        0
    } else if s.last() == '/' {
        s.len() as int
    } else {
        segment_start(s.drop_last())
    }
}

pub proof fn lemma_segment_start_bounds(s: Seq<char>)
    ensures
        0 <= segment_start(s) <= s.len(),
        s.len() > 0 && s.last() != '/' ==> segment_start(s) < s.len(),
        forall|i: int| segment_start(s) <= i < s.len() ==> s[i] != '/',
        segment_start(s) > 0 ==> s[segment_start(s) - 1] == '/',
    decreases s.len(),
{
    if s.len() > 0 && s.last() != '/' {
        lemma_segment_start_bounds(s.drop_last());
        assert forall|i: int| segment_start(s) <= i < s.len() implies s[i] != '/' by {
            if i < s.len() - 1 {
                assert(s[i] == s.drop_last()[i]);
            }
        }
    }
}

/// The file name of a path, as `Path::file_name` gives it: the last
/// component, once empty components and `.` components are left out; none
/// when nothing is left or that component is `..`.
pub open spec fn file_name_of(s: Seq<char>) -> Option<Seq<char>>
    decreases s.len(),
{
    if s.len() == 0 {
        None
    } else if s.last() == '/' {
        file_name_of(s.drop_last())
    } else {
        let k = segment_start(s);
        let segment = s.subrange(k, s.len() as int);
        if segment == seq!['.'] {
            proof {
                lemma_segment_start_bounds(s);
            }
            file_name_of(s.subrange(0, k))
        } else if segment == seq!['.', '.'] {
            None
        } else {
            Some(segment)
        }
    }
}

/// The index of the last `.` in `s`, if any.
pub open spec fn last_dot(s: Seq<char>) -> Option<int>
    decreases s.len(),
{
    if s.len() == 0 {
        None
    } else if s.last() == '.' {
        Some(s.len() - 1)
    } else {
        last_dot(s.drop_last())
    }
}

/// The extension of a file name, as `Path::extension` gives it: what follows
/// the last `.`, unless there is no `.` or the only one starts the name.
pub open spec fn extension_of(name: Seq<char>) -> Option<Seq<char>> {
    match last_dot(name) {
        Some(i) => if i > 0 {
            Some(name.subrange(i + 1, name.len() as int))
        } else {
            None
        },
        None => None,
    }
}

/// The media type served for an extension, whatever its ASCII case.
pub open spec fn media_type_for_extension(ext: Seq<char>) -> Option<Seq<char>> {
    if lowercases_to(ext, "avif"@) {
        Some("image/avif"@)
    } else if lowercases_to(ext, "gif"@) {
        Some("image/gif"@)
    } else if lowercases_to(ext, "jpeg"@) || lowercases_to(ext, "jpg"@) {
        Some("image/jpeg"@)
    } else if lowercases_to(ext, "png"@) {
        Some("image/png"@)
    } else if lowercases_to(ext, "webp"@) {
        Some("image/webp"@)
    } else {
        None
    }
}

/// One of the image types that browsers show: AVIF, GIF, JPEG, PNG, WebP.
pub open spec fn is_browser_safe_image_type(t: Seq<char>) -> bool {
    ||| t == "image/avif"@
    ||| t == "image/gif"@
    ||| t == "image/jpeg"@
    ||| t == "image/png"@
    ||| t == "image/webp"@
}

/// Only the browser-safe image types are served, each for exactly its
/// extensions in any ASCII case: `avif`, `gif`, `jpeg` or `jpg`, `png`,
/// `webp`; every other extension has no media type.
pub proof fn only_browser_safe_media_types(ext: Seq<char>)
    ensures
        match media_type_for_extension(ext) {
            Some(t) => {
                ||| lowercases_to(ext, "avif"@) && t == "image/avif"@
                ||| lowercases_to(ext, "gif"@) && t == "image/gif"@
                ||| (lowercases_to(ext, "jpeg"@) || lowercases_to(ext, "jpg"@)) && t
                    == "image/jpeg"@
                ||| lowercases_to(ext, "png"@) && t == "image/png"@
                ||| lowercases_to(ext, "webp"@) && t == "image/webp"@
            },
            None => !lowercases_to(ext, "avif"@) && !lowercases_to(ext, "gif"@) && !lowercases_to(
                ext,
                "jpeg"@,
            ) && !lowercases_to(ext, "jpg"@) && !lowercases_to(ext, "png"@) && !lowercases_to(
                ext,
                "webp"@,
            ),
        },
        media_type_for_extension(ext) matches Some(t) ==> is_browser_safe_image_type(t),
{
}

/// The media type of a slideshow file: that of its file name's extension.
pub open spec fn slideshow_media_type(path: Seq<char>) -> Option<Seq<char>> {
    match file_name_of(path) {
        Some(name) => match extension_of(name) {
            Some(ext) => media_type_for_extension(ext),
            None => None,
        },
        None => None,
    }
}

pub open spec fn static_text_option(t: Option<&'static str>) -> Option<Seq<char>> {
    match t {
        Some(s) => Some(s@),
        None => None,
    }
}

proof fn lemma_segment_start_of_prefix(s: Seq<char>, end: int, start: int)
    requires
        0 <= start <= end <= s.len(),
        start == 0 || s[start - 1] == '/',
        forall|i: int| start <= i < end ==> s[i] != '/',
    ensures
        segment_start(s.subrange(0, end)) == start,
    decreases end,
{
    let p = s.subrange(0, end);
    if end > start {
        assert(p.drop_last() =~= s.subrange(0, end - 1));
        lemma_segment_start_of_prefix(s, end - 1, start);
    } else if end > 0 {
        assert(p.last() == '/');
    }
}

/// Where the file name of the path `chars` lies in it.
fn file_name_range(chars: &Vec<char>) -> (range: Option<(usize, usize)>)
    ensures
        match range {
            Some((a, b)) => a <= b <= chars@.len() && file_name_of(chars@) == Some(
                chars@.subrange(a as int, b as int),
            ),
            None => file_name_of(chars@) is None,
        },
{
    let mut end: usize = chars.len();
    assert(chars@.subrange(0, end as int) =~= chars@);
    loop
        invariant
            end <= chars@.len(),
            file_name_of(chars@) == file_name_of(chars@.subrange(0, end as int)),
        decreases end,
    {
        let ghost prefix = chars@.subrange(0, end as int);
        if end == 0 {
            return None;
        }
        if chars[end - 1] == '/' {
            assert(prefix.drop_last() =~= chars@.subrange(0, end - 1));
            end = end - 1;
        } else {
            let mut start: usize = end;
            while start > 0 && chars[start - 1] != '/'
                invariant
                    start <= end <= chars@.len(),
                    forall|i: int| start <= i < end ==> chars@[i] != '/',
                decreases start,
            {
                start = start - 1;
            }
            proof {
                lemma_segment_start_of_prefix(chars@, end as int, start as int);
                assert(prefix.subrange(start as int, end as int) =~= chars@.subrange(
                    start as int,
                    end as int,
                ));
                assert(prefix.subrange(0, start as int) =~= chars@.subrange(0, start as int));
            }
            let length = end - start;
            if length == 1 && chars[start] == '.' {
                assert(chars@.subrange(start as int, end as int) =~= seq!['.']);
                end = start;
            } else if length == 2 && chars[start] == '.' && chars[start + 1] == '.' {
                assert(chars@.subrange(start as int, end as int) =~= seq!['.', '.']);
                return None;
            } else {
                assert(chars@.subrange(start as int, end as int) != seq!['.']) by {
                    if length == 1 {
                        assert(chars@.subrange(start as int, end as int)[0] == chars@[start as int]);
                    }
                }
                assert(chars@.subrange(start as int, end as int) != seq!['.', '.']) by {
                    if length == 2 {
                        assert(chars@.subrange(start as int, end as int)[0] == chars@[start as int]);
                        assert(chars@.subrange(start as int, end as int)[1] == chars@[start + 1]);
                    }
                }
                return Some((start, end));
            }
        }
    }
}

/// Where the extension of the name `chars[start..end]` starts, if it has one.
fn extension_start(chars: &Vec<char>, start: usize, end: usize) -> (ext: Option<usize>)
    requires
        start <= end <= chars@.len(),
    ensures
        match ext {
            Some(e) => start < e <= end && extension_of(chars@.subrange(start as int, end as int))
                == Some(chars@.subrange(e as int, end as int)),
            None => extension_of(chars@.subrange(start as int, end as int)) is None,
        },
{
    let ghost name = chars@.subrange(start as int, end as int);
    let mut i: usize = end;
    assert(name.subrange(0, (i - start) as int) =~= name);
    while i > start && chars[i - 1] != '.'
        invariant
            start <= i <= end <= chars@.len(),
            name == chars@.subrange(start as int, end as int),
            last_dot(name) == last_dot(name.subrange(0, (i - start) as int)),
        decreases i,
    {
        assert(name.subrange(0, (i - start) as int).drop_last() =~= name.subrange(
            0,
            (i - 1 - start) as int,
        ));
        i = i - 1;
    }
    if i == start {
        assert(name.subrange(0, 0) =~= Seq::<char>::empty());
        None
    } else {
        assert(name.subrange(0, (i - start) as int).last() == chars@[i - 1]);
        if i - 1 == start {
            None
        } else {
            assert(name.subrange(i - start, name.len() as int) =~= chars@.subrange(
                i as int,
                end as int,
            ));
            Some(i)
        }
    }
}

/// The media type served for a slideshow file name, by the extension of its
/// file name regardless of ASCII case: AVIF, GIF, JPEG (`jpeg` or `jpg`),
/// PNG or WebP; none for anything else.
pub fn slideshow_content_type(filename: &str) -> (media_type: Option<&'static str>)
    ensures
        static_text_option(media_type) == slideshow_media_type(filename@),
        media_type matches Some(t) ==> is_browser_safe_image_type(t@),
{
    let chars = chars_of(filename);
    let (start, end) = match file_name_range(&chars) {
        Some(r) => r,
        None => {
            return None;
        },
    };
    let e = match extension_start(&chars, start, end) {
        Some(e) => e,
        None => {
            return None;
        },
    };
    proof {
        only_browser_safe_media_types(chars@.subrange(e as int, end as int));
    }
    if lowercases_to_word(&chars, e, end, "avif") {
        Some("image/avif")
    } else if lowercases_to_word(&chars, e, end, "gif") {
        Some("image/gif")
    } else if lowercases_to_word(&chars, e, end, "jpeg") || lowercases_to_word(
        &chars,
        e,
        end,
        "jpg",
    ) {
        Some("image/jpeg")
    } else if lowercases_to_word(&chars, e, end, "png") {
        Some("image/png")
    } else if lowercases_to_word(&chars, e, end, "webp") {
        Some("image/webp")
    } else {
        None
    }
}

/// Whether `name` is a bare file name: the file name of the path `name` is
/// `name` itself.
pub fn is_plain_file_name(name: &str) -> (plain: bool)
    ensures
        plain == (file_name_of(name@) == Some(name@)),
{
    let chars = chars_of(name);
    match file_name_range(&chars) {
        Some((a, b)) => {
            if a == 0 && b == chars.len() {
                assert(chars@.subrange(0, chars@.len() as int) =~= chars@);
                true
            } else {
                assert(chars@.subrange(a as int, b as int).len() != chars@.len());
                false
            }
        },
        None => false,
    }
}

/// The key by which the slideshow orders file names: the code points of the
/// name lower-cased in ASCII (as `to_ascii_lowercase` and the ordering of
/// `String` compare them).
pub open spec fn name_key(name: Seq<char>) -> Seq<u32> {
    lowercase_codes(name)
}

/// Lexicographic order of keys: `a` sorts no later than `b`.
pub open spec fn key_le(a: Seq<u32>, b: Seq<u32>) -> bool
    decreases a.len(),
{
    if a.len() == 0 {
        true
    } else if b.len() == 0 {
        false
    } else if a[0] != b[0] {
        a[0] < b[0]
    } else {
        key_le(a.drop_first(), b.drop_first())
    }
}

pub proof fn lemma_key_le_reflexive(a: Seq<u32>)
    ensures
        key_le(a, a),
    decreases a.len(),
{
    if a.len() > 0 {
        lemma_key_le_reflexive(a.drop_first());
    }
}

pub proof fn lemma_key_le_total(a: Seq<u32>, b: Seq<u32>)
    ensures
        key_le(a, b) || key_le(b, a),
    decreases a.len(),
{
    if a.len() > 0 && b.len() > 0 && a[0] == b[0] {
        lemma_key_le_total(a.drop_first(), b.drop_first());
    }
}

pub proof fn lemma_key_le_transitive(a: Seq<u32>, b: Seq<u32>, c: Seq<u32>)
    requires
        key_le(a, b),
        key_le(b, c),
    ensures
        key_le(a, c),
    decreases a.len(),
{
    if a.len() > 0 && b.len() > 0 && c.len() > 0 && a[0] == b[0] && b[0] == c[0] {
        lemma_key_le_transitive(a.drop_first(), b.drop_first(), c.drop_first());
    }
}

/// The key order is the lexicographic order of code points: `a` sorts no
/// later than `b` exactly when `a` is a prefix of `b`, or at the first place
/// where they differ `a` has the smaller code point.
pub proof fn key_order_is_lexicographic(a: Seq<u32>, b: Seq<u32>)
    ensures
        key_le(a, b) <==> (a.len() <= b.len() && a == b.subrange(0, a.len() as int)) || exists|k: int|
            0 <= k < a.len() && k < b.len() && a.subrange(0, k) == b.subrange(0, k) && #[trigger] a[k]
                < b[k],
    decreases a.len(),
{
    if a.len() == 0 {
        assert(a =~= b.subrange(0, 0));
    } else if b.len() == 0 {
    } else if a[0] != b[0] {
        if a[0] < b[0] {
            assert(a.subrange(0, 0) =~= b.subrange(0, 0));
        } else {
            if exists|k: int|
                0 <= k < a.len() && k < b.len() && a.subrange(0, k) == b.subrange(0, k) && #[trigger] a[k]
                    < b[k] {
                let k = choose|k: int|
                    0 <= k < a.len() && k < b.len() && a.subrange(0, k) == b.subrange(0, k)
                        && #[trigger] a[k] < b[k];
                if k > 0 {
                    assert(a.subrange(0, k)[0] == b.subrange(0, k)[0]);
                }
            }
            if a.len() <= b.len() && a == b.subrange(0, a.len() as int) {
                assert(a[0] == b.subrange(0, a.len() as int)[0]);
            }
        }
    } else {
        let a2 = a.drop_first();
        let b2 = b.drop_first();
        key_order_is_lexicographic(a2, b2);
        if a2.len() <= b2.len() && a2 == b2.subrange(0, a2.len() as int) {
            assert forall|j: int| 0 <= j < a.len() implies a[j] == b[j] by {
                if j > 0 {
                    assert(a2[j - 1] == b2.subrange(0, a2.len() as int)[j - 1]);
                }
            }
            assert(a =~= b.subrange(0, a.len() as int));
        }
        if a.len() <= b.len() && a == b.subrange(0, a.len() as int) {
            assert(a2 =~= b2.subrange(0, a2.len() as int));
        }
        if exists|k: int|
            0 <= k < a2.len() && k < b2.len() && a2.subrange(0, k) == b2.subrange(0, k)
                && #[trigger] a2[k] < b2[k] {
            let k = choose|k: int|
                0 <= k < a2.len() && k < b2.len() && a2.subrange(0, k) == b2.subrange(0, k)
                    && #[trigger] a2[k] < b2[k];
            assert(a.subrange(0, k + 1) =~= b.subrange(0, k + 1)) by {
                assert forall|j: int| 0 <= j < k + 1 implies a[j] == b[j] by {
                    if j > 0 {
                        assert(a2.subrange(0, k)[j - 1] == b2.subrange(0, k)[j - 1]);
                    }
                }
            }
            assert(a[k + 1] == a2[k]);
        }
        if exists|k: int|
            0 <= k < a.len() && k < b.len() && a.subrange(0, k) == b.subrange(0, k) && #[trigger] a[k]
                < b[k] {
            let k = choose|k: int|
                0 <= k < a.len() && k < b.len() && a.subrange(0, k) == b.subrange(0, k)
                    && #[trigger] a[k] < b[k];
            assert(k > 0);
            assert(a2.subrange(0, k - 1) =~= b2.subrange(0, k - 1)) by {
                assert forall|j: int| 0 <= j < k - 1 implies a2[j] == b2[j] by {
                    assert(a.subrange(0, k)[j + 1] == b.subrange(0, k)[j + 1]);
                }
            }
            assert(a2[k - 1] == a[k]);
        }
    }
}

/// Names that differ only in the ASCII case of their letters have the same
/// key, so the slideshow orders them by their input order.
pub proof fn names_differing_in_case_share_a_key(a: Seq<char>, b: Seq<char>)
    requires
        same_but_ascii_case(a, b),
    ensures
        name_key(a) == name_key(b),
{
}

/// The names listed in the slideshow: those with a supported media type.
pub open spec fn is_shown(name: Seq<char>) -> bool {
    slideshow_media_type(name) is Some
}

pub open spec fn texts_view(names: Seq<String>) -> Seq<Seq<char>> {
    names.map_values(|n: String| n@)
}

/// Ordered by key, names with equal keys in either order.
pub open spec fn sorted_by_key(names: Seq<Seq<char>>) -> bool {
    forall|i: int, j: int|
        0 <= i < j < names.len() ==> key_le(name_key(#[trigger] names[i]), name_key(#[trigger] names[j]))
}

/// For every key, the names with that key come in the same order in `a` as
/// in `b` (and so both hold the same names).
pub open spec fn same_order_per_key(a: Seq<Seq<char>>, b: Seq<Seq<char>>) -> bool {
    forall|key: Seq<u32>| #[trigger] with_key(a, key) == with_key(b, key)
}

pub open spec fn has_key(key: Seq<u32>) -> spec_fn(Seq<char>) -> bool {
    |n: Seq<char>| name_key(n) == key
}

/// The names with the given key, in their order.
pub open spec fn with_key(names: Seq<Seq<char>>, key: Seq<u32>) -> Seq<Seq<char>> {
    names.filter(has_key(key))
}

/// The names that the slideshow shows, in their order.
pub open spec fn shown_names(names: Seq<Seq<char>>) -> Seq<Seq<char>> {
    names.filter(shown())
}

pub open spec fn shown() -> spec_fn(Seq<char>) -> bool {
    |n: Seq<char>| is_shown(n)
}

/// A listing that keeps, for every key, the order of the shown names holds
/// exactly the names that have a supported media type, whatever else they
/// hold (their length, their other characters).
pub proof fn slideshow_lists_exactly_the_names_with_a_media_type(
    listing: Seq<Seq<char>>,
    names: Seq<Seq<char>>,
)
    requires
        same_order_per_key(listing, shown_names(names)),
    ensures
        forall|n: Seq<char>|
            #[trigger] listing.contains(n) <==> names.contains(n) && slideshow_media_type(n) is Some,
{
    let shown_list = shown_names(names);
    assert forall|n: Seq<char>|
        #[trigger] listing.contains(n) <==> names.contains(n) && slideshow_media_type(n) is Some by {
        let k = name_key(n);
        assert(with_key(listing, k) == with_key(shown_list, k));
        if listing.contains(n) {
            let i = choose|i: int| 0 <= i < listing.len() && listing[i] == n;
            listing.lemma_filter_contains(has_key(k), i);
            assert(with_key(shown_list, k).contains(n));
            shown_list.lemma_filter_contains_rev(has_key(k), n);
            names.lemma_filter_contains_rev(shown(), n);
            let j = choose|j: int| 0 <= j < shown_list.len() && shown_list[j] == n;
            names.lemma_filter_pred(shown(), j);
            assert(slideshow_media_type(n) is Some);
        }
        if names.contains(n) && slideshow_media_type(n) is Some {
            let j = choose|j: int| 0 <= j < names.len() && names[j] == n;
            assert(shown()(names[j]));
            names.lemma_filter_contains(shown(), j);
            let m = choose|m: int| 0 <= m < shown_list.len() && shown_list[m] == n;
            shown_list.lemma_filter_contains(has_key(k), m);
            assert(with_key(listing, k).contains(n));
            listing.lemma_filter_contains_rev(has_key(k), n);
        }
    }
}

proof fn lemma_filter_none<A>(s: Seq<A>, pred: spec_fn(A) -> bool)
    requires
        forall|i: int| 0 <= i < s.len() ==> !pred(#[trigger] s[i]),
    ensures
        s.filter(pred) == Seq::<A>::empty(),
    decreases s.len(),
{
    reveal(Seq::filter);
    if s.len() > 0 {
        lemma_filter_none(s.drop_last(), pred);
    }
}

proof fn lemma_filter_insert<A>(s: Seq<A>, p: int, x: A, pred: spec_fn(A) -> bool)
    requires
        0 <= p <= s.len(),
        pred(x) ==> forall|j: int| p <= j < s.len() ==> !pred(#[trigger] s[j]),
    ensures
        s.insert(p, x).filter(pred) == if pred(x) {
            s.filter(pred).push(x)
        } else {
            s.filter(pred)
        },
{
    let front = s.subrange(0, p);
    let back = s.subrange(p, s.len() as int);
    assert(s =~= front + back);
    assert(s.insert(p, x) =~= (front + seq![x]) + back);
    Seq::filter_distributes_over_add(front, back, pred);
    Seq::filter_distributes_over_add(front + seq![x], back, pred);
    Seq::filter_distributes_over_add(front, seq![x], pred);
    reveal(Seq::filter);
    assert(seq![x].drop_last() =~= Seq::<A>::empty());
    assert(Seq::<A>::empty().filter(pred) =~= Seq::<A>::empty());
    assert(seq![x].last() == x);
    if pred(x) {
        lemma_filter_none(back, pred);
        assert(seq![x].filter(pred) =~= seq![x]);
        assert(front.filter(pred) + seq![x] + Seq::<A>::empty() =~= front.filter(pred).push(x));
        assert(front.filter(pred) + Seq::<A>::empty() =~= front.filter(pred));
    } else {
        assert(seq![x].filter(pred) =~= Seq::<A>::empty());
        assert(front.filter(pred) + Seq::<A>::empty() =~= front.filter(pred));
    }
}

proof fn lemma_filter_push<A>(s: Seq<A>, x: A, pred: spec_fn(A) -> bool)
    ensures
        s.push(x).filter(pred) == if pred(x) {
            s.filter(pred).push(x)
        } else {
            s.filter(pred)
        },
{
    reveal(Seq::filter);
    assert(s.push(x).drop_last() =~= s);
}

/// The ordering key of a name.
fn name_key_of(name: &str) -> (key: Vec<u32>)
    ensures
        key@ == name_key(name@),
{
    let chars = chars_of(name);
    let mut key: Vec<u32> = Vec::new();
    let mut i: usize = 0;
    while i < chars.len()
        invariant
            chars@ == name@,
            i <= chars@.len(),
            key@ =~= lowercase_codes(chars@.take(i as int)),
        decreases chars@.len() - i,
    {
        key.push(lower_code_of(chars[i]));
        i += 1;
        assert(key@ =~= lowercase_codes(chars@.take(i as int)));
    }
    assert(chars@.take(chars@.len() as int) =~= chars@);
    key
}

/// Whether key `a` sorts no later than key `b`.
fn key_not_after(a: &Vec<u32>, b: &Vec<u32>) -> (le: bool)
    ensures
        le == key_le(a@, b@),
{
    let mut i: usize = 0;
    assert(a@.skip(0) =~= a@);
    assert(b@.skip(0) =~= b@);
    while i < a.len() && i < b.len() && a[i] == b[i]
        invariant
            i <= a@.len(),
            i <= b@.len(),
            key_le(a@, b@) == key_le(a@.skip(i as int), b@.skip(i as int)),
        decreases a@.len() - i,
    {
        assert(a@.skip(i as int).drop_first() =~= a@.skip(i + 1));
        assert(b@.skip(i as int).drop_first() =~= b@.skip(i + 1));
        i += 1;
    }
    if i == a.len() {
        true
    } else if i == b.len() {
        false
    } else {
        a[i] < b[i]
    }
}

/// The slideshow's pictures among the names of the regular files in its
/// directory: those with a supported media type, ordered by their ASCII
/// lower-cased names; names with equal keys keep their order.
pub fn slideshow_images(names: Vec<String>) -> (images: Vec<String>)
    ensures
        sorted_by_key(texts_view(images@)),
        same_order_per_key(
            texts_view(images@),
            shown_names(texts_view(names@)),
        ),
        forall|n: Seq<char>|
            #[trigger] texts_view(images@).contains(n) <==> texts_view(names@).contains(n)
                && slideshow_media_type(n) is Some,
{
    let mut images: Vec<String> = Vec::new();
    let mut keys: Vec<Vec<u32>> = Vec::new();
    let mut i: usize = 0;
    proof {
        assert(texts_view(names@).take(0) =~= Seq::<Seq<char>>::empty());
        reveal(Seq::filter);
        assert(texts_view(images@) =~= Seq::<Seq<char>>::empty());
    }
    while i < names.len()
        invariant
            i <= names@.len(),
            keys@.len() == images@.len(),
            forall|j: int| 0 <= j < keys@.len() ==> (#[trigger] keys@[j])@ == name_key(images@[j]@),
            sorted_by_key(texts_view(images@)),
            same_order_per_key(
                texts_view(images@),
                shown_names(texts_view(names@).take(i as int)),
            ),
        decreases names@.len() - i,
    {
        let ghost seen = texts_view(names@).take(i as int);
        let ghost old_images = texts_view(images@);
        let name = &names[i];
        proof {
            assert(texts_view(names@).take(i + 1) =~= seen.push(name@));
            lemma_filter_push(seen, name@, shown());
            assert(shown_names(texts_view(names@).take(i + 1)) == if is_shown(name@) {
                shown_names(seen).push(name@)
            } else {
                shown_names(seen)
            });
        }
        if slideshow_content_type(name.as_str()).is_some() {
            let key = name_key_of(name.as_str());
            let mut p: usize = images.len();
            loop
                invariant
                    p <= keys@.len(),
                    keys@.len() == images@.len(),
                    forall|j: int| p <= j < keys@.len() ==> !key_le((#[trigger] keys@[j])@, key@),
                ensures
                    p <= keys@.len(),
                    forall|j: int| p <= j < keys@.len() ==> !key_le((#[trigger] keys@[j])@, key@),
                    p == 0 || key_le(keys@[p - 1]@, key@),
                decreases p,
            {
                if p == 0 {
                    break;
                }
                if key_not_after(&keys[p - 1], &key) {
                    break;
                }
                p -= 1;
            }
            let ghost old_keys = keys@;
            let copy = name.clone();
            images.insert(p, copy);
            keys.insert(p, key);
            proof {
                let x = name@;
                let new_images = texts_view(images@);
                assert(new_images =~= old_images.insert(p as int, x));
                assert(is_shown(x));
                lemma_key_le_reflexive(name_key(x));
                assert forall|j: int| 0 <= j < keys@.len() implies (#[trigger] keys@[j])@ == name_key(
                    images@[j]@,
                ) by {
                    if j < p {
                        assert(keys@[j] == old_keys[j]);
                    } else if j > p {
                        assert(keys@[j] == old_keys[j - 1]);
                    }
                }
                assert forall|a: int, b: int| 0 <= a < b < new_images.len() implies key_le(
                    name_key(#[trigger] new_images[a]),
                    name_key(#[trigger] new_images[b]),
                ) by {
                    if b < p {
                        assert(new_images[a] == old_images[a] && new_images[b] == old_images[b]);
                    } else if b == p {
                        assert(new_images[a] == old_images[a]);
                        assert(old_keys[p - 1]@ == name_key(old_images[p - 1]));
                        if a < p - 1 {
                            assert(key_le(name_key(old_images[a]), name_key(old_images[p - 1])));
                            lemma_key_le_transitive(
                                name_key(old_images[a]),
                                name_key(old_images[p - 1]),
                                name_key(x),
                            );
                        }
                    } else if a == p {
                        assert(new_images[b] == old_images[b - 1]);
                        assert(old_keys[b - 1]@ == name_key(old_images[b - 1]));
                        lemma_key_le_total(name_key(old_images[b - 1]), name_key(x));
                    } else if a < p {
                        assert(new_images[a] == old_images[a] && new_images[b] == old_images[b
                            - 1]);
                    } else {
                        assert(new_images[a] == old_images[a - 1] && new_images[b]
                            == old_images[b - 1]);
                    }
                }
                assert forall|k: Seq<u32>|
                    #[trigger] with_key(new_images, k) == with_key(
                        shown_names(texts_view(names@).take(i + 1)),
                        k,
                    ) by {
                    let pred = has_key(k);
                    assert forall|j: int| p <= j < old_images.len() implies !pred(
                        #[trigger] old_images[j],
                    ) || !pred(x) by {
                        assert(old_keys[j]@ == name_key(old_images[j]));
                    }
                    lemma_filter_insert(old_images, p as int, x, pred);
                    lemma_filter_push(shown_names(seen), x, pred);
                    assert(with_key(old_images, k) == with_key(shown_names(seen), k));
                }
            }
        } else {
            proof {
                assert(!is_shown(name@));
            }
        }
        i += 1;
    }
    proof {
        assert(texts_view(names@).take(names@.len() as int) =~= texts_view(names@));
    }
    proof {
        slideshow_lists_exactly_the_names_with_a_media_type(
            texts_view(images@),
            texts_view(names@),
        );
    }
    images
}

/// The media type for a requested slideshow picture: a 400 unless the name
/// is a bare file name, a 415 unless it has a supported media type.
pub fn slideshow_image_type(filename: &str) -> (media_type: Result<&'static str, HttpError>)
    ensures
        file_name_of(filename@) != Some(filename@) ==> (media_type matches Err(e) && e.status
            == BAD_REQUEST && e.message@ == "Invalid slideshow filename."@),
        file_name_of(filename@) == Some(filename@) ==> match slideshow_media_type(filename@) {
            Some(t) => media_type matches Ok(m) && m@ == t,
            None => media_type matches Err(e) && e.status == UNSUPPORTED_MEDIA_TYPE && e.message@
                == "Unsupported slideshow image type."@,
        },
{
    if !is_plain_file_name(filename) {
        return Err(HttpError::new(BAD_REQUEST, "Invalid slideshow filename."));
    }
    match slideshow_content_type(filename) {
        Some(t) => Ok(t),
        None => Err(HttpError::new(UNSUPPORTED_MEDIA_TYPE, "Unsupported slideshow image type.")),
    }
}

proof fn lemma_file_name_is_a_segment(s: Seq<char>)
    ensures
        file_name_of(s) matches Some(n) ==> {
            &&& n.len() > 0
            &&& n != seq!['.']
            &&& n != seq!['.', '.']
            &&& forall|i: int| 0 <= i < n.len() ==> n[i] != '/'
            &&& exists|a: int| 0 <= a && a + n.len() <= s.len() && n == #[trigger] s.subrange(
                a,
                a + n.len(),
            )
        },
    decreases s.len(),
{
    if s.len() == 0 {
    } else if s.last() == '/' {
        lemma_file_name_is_a_segment(s.drop_last());
        if let Some(n) = file_name_of(s) {
            let a = choose|a: int|
                0 <= a && a + n.len() <= s.drop_last().len() && n == #[trigger] s.drop_last().subrange(
                    a,
                    a + n.len(),
                );
            assert(s.subrange(a, a + n.len()) =~= s.drop_last().subrange(a, a + n.len()));
        }
    } else {
        lemma_segment_start_bounds(s);
        let k = segment_start(s);
        let segment = s.subrange(k, s.len() as int);
        if segment == seq!['.'] {
            lemma_file_name_is_a_segment(s.subrange(0, k));
            if let Some(n) = file_name_of(s) {
                let a = choose|a: int|
                    0 <= a && a + n.len() <= s.subrange(0, k).len() && n == #[trigger] s.subrange(
                        0,
                        k,
                    ).subrange(a, a + n.len());
                assert(s.subrange(a, a + n.len()) =~= s.subrange(0, k).subrange(a, a + n.len()));
            }
        } else if segment != seq!['.', '.'] {
            assert(segment.len() > 0);
            assert forall|i: int| 0 <= i < segment.len() implies segment[i] != '/' by {
                assert(segment[i] == s[k + i]);
            }
            assert(s.subrange(k, k + segment.len()) == segment);
        }
    }
}

/// A name is its own file name exactly when it is not empty, holds no `/`,
/// and is neither `.` nor `..`.
pub proof fn plain_file_names_are_single_normal_components(name: Seq<char>)
    ensures
        file_name_of(name) == Some(name) <==> {
            &&& name.len() > 0
            &&& forall|i: int| 0 <= i < name.len() ==> name[i] != '/'
            &&& name != seq!['.']
            &&& name != seq!['.', '.']
        },
{
    lemma_file_name_is_a_segment(name);
    if name.len() > 0 && (forall|i: int| 0 <= i < name.len() ==> name[i] != '/') && name != seq![
        '.',
    ] && name != seq!['.', '.'] {
        lemma_segment_start_of_prefix(name, name.len() as int, 0);
        assert(name.subrange(0, name.len() as int) =~= name);
    }
}

/// The media type of a slideshow file does not depend on the ASCII case of
/// its extension.
pub proof fn media_type_ignores_ascii_case(a: Seq<char>, b: Seq<char>)
    requires
        lowercase_codes(a) == lowercase_codes(b),
    ensures
        media_type_for_extension(a) == media_type_for_extension(b),
{
    assert(a.len() == lowercase_codes(a).len());
    assert(b.len() == lowercase_codes(b).len());
    assert forall|i: int| 0 <= i < a.len() implies lower_code(a[i]) == lower_code(b[i]) by {
        assert(lowercase_codes(a)[i] == lower_code(a[i]));
        assert(lowercase_codes(b)[i] == lower_code(b[i]));
    }
}

/// `a` and `b` differ at most in the ASCII case of their letters.
pub open spec fn same_but_ascii_case(a: Seq<char>, b: Seq<char>) -> bool {
    lowercase_codes(a) == lowercase_codes(b)
}

proof fn lemma_lower_code_of_separators(c: char)
    ensures
        lower_code(c) == '/' as u32 <==> c == '/',
        lower_code(c) == '.' as u32 <==> c == '.',
{
}

proof fn lemma_same_but_ascii_case_chars(a: Seq<char>, b: Seq<char>)
    requires
        same_but_ascii_case(a, b),
    ensures
        a.len() == b.len(),
        forall|i: int|
            0 <= i < a.len() ==> lower_code(#[trigger] a[i]) == lower_code(b[i]) && (a[i] == '/'
                <==> b[i] == '/') && (a[i] == '.' <==> b[i] == '.'),
{
    assert(a.len() == lowercase_codes(a).len());
    assert(b.len() == lowercase_codes(b).len());
    assert forall|i: int| 0 <= i < a.len() implies lower_code(#[trigger] a[i]) == lower_code(b[i])
        && (a[i] == '/' <==> b[i] == '/') && (a[i] == '.' <==> b[i] == '.') by {
        assert(lowercase_codes(a)[i] == lower_code(a[i]));
        assert(lowercase_codes(b)[i] == lower_code(b[i]));
        lemma_lower_code_of_separators(a[i]);
        lemma_lower_code_of_separators(b[i]);
    }
}

proof fn lemma_same_but_ascii_case_subrange(a: Seq<char>, b: Seq<char>, i: int, j: int)
    requires
        same_but_ascii_case(a, b),
        0 <= i <= j <= a.len(),
    ensures
        same_but_ascii_case(a.subrange(i, j), b.subrange(i, j)),
{
    lemma_same_but_ascii_case_chars(a, b);
    assert(lowercase_codes(a.subrange(i, j)) =~= lowercase_codes(a).subrange(i, j));
    assert(lowercase_codes(b.subrange(i, j)) =~= lowercase_codes(b).subrange(i, j));
}

proof fn lemma_segment_start_ignores_case(a: Seq<char>, b: Seq<char>)
    requires
        same_but_ascii_case(a, b),
    ensures
        segment_start(a) == segment_start(b),
    decreases a.len(),
{
    lemma_same_but_ascii_case_chars(a, b);
    if a.len() > 0 {
        assert(a.last() == a[a.len() - 1] && b.last() == b[b.len() - 1]);
        lemma_same_but_ascii_case_subrange(a, b, 0, a.len() - 1);
        assert(a.drop_last() =~= a.subrange(0, a.len() - 1));
        assert(b.drop_last() =~= b.subrange(0, b.len() - 1));
        lemma_segment_start_ignores_case(a.drop_last(), b.drop_last());
    }
}

proof fn lemma_file_name_ignores_case(a: Seq<char>, b: Seq<char>)
    requires
        same_but_ascii_case(a, b),
    ensures
        match (file_name_of(a), file_name_of(b)) {
            (Some(x), Some(y)) => same_but_ascii_case(x, y),
            (None, None) => true,
            _ => false,
        },
    decreases a.len(),
{
    lemma_same_but_ascii_case_chars(a, b);
    if a.len() > 0 {
        assert(a.last() == a[a.len() - 1] && b.last() == b[b.len() - 1]);
        if a.last() == '/' {
            lemma_same_but_ascii_case_subrange(a, b, 0, a.len() - 1);
            assert(a.drop_last() =~= a.subrange(0, a.len() - 1));
            assert(b.drop_last() =~= b.subrange(0, b.len() - 1));
            lemma_file_name_ignores_case(a.drop_last(), b.drop_last());
        } else {
            lemma_segment_start_ignores_case(a, b);
            lemma_segment_start_bounds(a);
            let k = segment_start(a);
            let x = a.subrange(k, a.len() as int);
            let y = b.subrange(k, b.len() as int);
            lemma_same_but_ascii_case_subrange(a, b, k, a.len() as int);
            lemma_same_but_ascii_case_chars(x, y);
            if x == seq!['.'] {
                assert(x[0] == '.');
                assert(y =~= seq!['.']);
            } else if y == seq!['.'] {
                assert(y[0] == '.');
                assert(x =~= seq!['.']);
            }
            if x == seq!['.', '.'] {
                assert(x[0] == '.' && x[1] == '.');
                assert(y =~= seq!['.', '.']);
            } else if y == seq!['.', '.'] {
                assert(y[0] == '.' && y[1] == '.');
                assert(x =~= seq!['.', '.']);
            }
            if x == seq!['.'] {
                lemma_same_but_ascii_case_subrange(a, b, 0, k);
                lemma_file_name_ignores_case(a.subrange(0, k), b.subrange(0, k));
            }
        }
    }
}

proof fn lemma_last_dot_ignores_case(a: Seq<char>, b: Seq<char>)
    requires
        same_but_ascii_case(a, b),
    ensures
        last_dot(a) == last_dot(b),
    decreases a.len(),
{
    lemma_same_but_ascii_case_chars(a, b);
    if a.len() > 0 {
        assert(a.last() == a[a.len() - 1] && b.last() == b[b.len() - 1]);
        lemma_same_but_ascii_case_subrange(a, b, 0, a.len() - 1);
        assert(a.drop_last() =~= a.subrange(0, a.len() - 1));
        assert(b.drop_last() =~= b.subrange(0, b.len() - 1));
        lemma_last_dot_ignores_case(a.drop_last(), b.drop_last());
    }
}

proof fn lemma_last_dot_bounds(s: Seq<char>)
    ensures
        last_dot(s) matches Some(i) ==> 0 <= i < s.len(),
    decreases s.len(),
{
    if s.len() > 0 {
        lemma_last_dot_bounds(s.drop_last());
    }
}

/// The media type of a slideshow file does not depend on the ASCII case of
/// any letter of its name: lower- or upper-casing the whole name keeps it.
pub proof fn media_type_ignores_ascii_case_of_the_name(a: Seq<char>, b: Seq<char>)
    requires
        same_but_ascii_case(a, b),
    ensures
        slideshow_media_type(a) == slideshow_media_type(b),
{
    lemma_file_name_ignores_case(a, b);
    if let (Some(x), Some(y)) = (file_name_of(a), file_name_of(b)) {
        lemma_last_dot_ignores_case(x, y);
        lemma_last_dot_bounds(x);
        lemma_same_but_ascii_case_chars(x, y);
        if let Some(i) = last_dot(x) {
            if i > 0 {
                lemma_same_but_ascii_case_subrange(x, y, i + 1, x.len() as int);
                media_type_ignores_ascii_case(
                    x.subrange(i + 1, x.len() as int),
                    y.subrange(i + 1, y.len() as int),
                );
            }
        }
    }
}

} // verus!

//! The frame-directory catalog: directories of sequentially numbered
//! frame images under one root.
//!
//! A frame's number is parsed from its filename: the token after the last
//! underscore, cut at the first dot, read as a decimal number (an optional
//! leading plus sign allowed); anything unparsable counts as frame 0.

use vstd::prelude::*;
use vstd::seq_lib::lemma_multiset_commutative;
use vstd::string::StrSliceExecFns;

use crate::fs_scan::files_of;
use crate::fs_scan::total_file_size;

verus! {

/// A decimal digit.
pub open spec fn is_digit(c: char) -> bool {
    48 <= c as u32 && c as u32 <= 57
}

/// The value of one decimal digit.
pub open spec fn digit_val(c: char) -> int {
    c as u32 - 48
}

/// Every character is a decimal digit.
pub open spec fn all_digits(s: Seq<char>) -> bool {
    forall|i: int| 0 <= i < s.len() ==> is_digit(#[trigger] s[i])
}

/// The number a digit string denotes, most significant digit first.
pub open spec fn digits_value(s: Seq<char>) -> int
    decreases s.len(),
{
    if s.len() == 0 {
        0
    } else {
        digits_value(s.drop_last()) * 10 + digit_val(s.last())
    }
}

/// The token after the last underscore: the whole string when there is none.
pub open spec fn after_last_underscore(s: Seq<char>) -> Seq<char>
    decreases s.len(),
{
    if s.len() == 0 {
        s
    } else if s.last() == '_' {
        Seq::empty()
    } else {
        after_last_underscore(s.drop_last()).push(s.last())
    }
}

/// The prefix before the first dot: the whole string when there is none.
pub open spec fn before_first_dot(s: Seq<char>) -> Seq<char>
    decreases s.len(),
{
    if s.len() == 0 {
        s
    } else if s.first() == '.' {
        Seq::empty()
    } else {
        seq![s.first()] + before_first_dot(s.drop_first())
    }
}

/// The number a token denotes when read the way `usize` parses decimal
/// text: an optional leading plus sign, then at least one digit, the value
/// fitting the type; everything else denotes 0.
pub open spec fn token_value(t: Seq<char>) -> int {
    let body = if t.len() > 0 && t.first() == '+' {
        t.drop_first()
    } else {
        t
    };
    if body.len() > 0 && all_digits(body) && digits_value(body) <= usize::MAX as int {
        digits_value(body)
    } else {
        0
    }
}

/// The frame number encoded in a filename.
pub open spec fn spec_frame_number(name: Seq<char>) -> int {
    token_value(before_first_dot(after_last_underscore(name)))
}

/// A digit string's value is never negative.
proof fn lemma_digits_value_nonneg(s: Seq<char>)
    requires
        all_digits(s),
    ensures
        digits_value(s) >= 0,
    decreases s.len(),
{
    if s.len() > 0 {
        assert(all_digits(s.drop_last()));
        lemma_digits_value_nonneg(s.drop_last());
    }
}

/// Prefixes of a digit string never denote more than the whole string.
proof fn lemma_digits_value_prefix_grows(s: Seq<char>, k: int)
    requires
        all_digits(s),
        0 <= k <= s.len(),
    ensures
        digits_value(s.subrange(0, k)) <= digits_value(s),
    decreases s.len() - k,
{
    if k < s.len() {
        let t = s.subrange(0, k + 1);
        assert(t.drop_last() =~= s.subrange(0, k));
        assert(all_digits(s.subrange(0, k)));
        lemma_digits_value_nonneg(s.subrange(0, k));
        assert(digits_value(t) == digits_value(s.subrange(0, k)) * 10 + digit_val(s[k]));
        assert(digits_value(s.subrange(0, k)) <= digits_value(t)) by {
            lemma_digits_value_nonneg(s.subrange(0, k));
        };
        lemma_digits_value_prefix_grows(s, k + 1);
        assert(s.subrange(0, s.len() as int) =~= s);
    } else {
        assert(s.subrange(0, k) =~= s);
    }
}

/// Cutting at the first dot is cutting at the first index that holds one.
proof fn lemma_before_first_dot_at(t: Seq<char>, k: int)
    requires
        0 <= k <= t.len(),
        forall|j: int| 0 <= j < k ==> t[j] != '.',
        k < t.len() ==> t[k] == '.',
    ensures
        before_first_dot(t) == t.subrange(0, k),
    decreases t.len(),
{
    if t.len() == 0 {
        assert(before_first_dot(t) =~= t.subrange(0, 0));
    } else if t.first() == '.' {
        assert(k == 0);
        assert(before_first_dot(t) =~= t.subrange(0, 0));
    } else {
        assert(k >= 1);
        let rest = t.drop_first();
        lemma_before_first_dot_at(rest, k - 1);
        assert(seq![t.first()] + rest.subrange(0, k - 1) =~= t.subrange(0, k));
    }
}

/// Parses the frame number a filename carries: the decimal value of the
/// token between the last underscore and the following dot, 0 when that
/// token is not a number the platform can hold.
#[verifier::loop_isolation(false)]
#[verifier::rlimit(60)]
pub fn parse_frame_number(name: &str) -> (r: usize)
    ensures
        r as int == spec_frame_number(name@),
{
    let n = name.unicode_len();
    // Find where the token after the last underscore starts.
    let mut start: usize = 0;
    let mut i: usize = 0;
    while i < n
        invariant
            0 <= start <= i <= n,
            n == name@.len(),
            after_last_underscore(name@.take(i as int)) == name@.subrange(
                start as int,
                i as int,
            ),
        decreases n - i,
    {
        proof {
            assert(name@.take(i as int + 1).drop_last() =~= name@.take(i as int));
        }
        if name.get_char(i) == '_' {
            start = i + 1;
            proof {
                assert(after_last_underscore(name@.take(i as int + 1)) =~= name@.subrange(
                    start as int,
                    i as int + 1,
                ));
            }
        } else {
            proof {
                assert(after_last_underscore(name@.take(i as int + 1)) =~= name@.subrange(
                    start as int,
                    i as int + 1,
                ));
            }
        }
        i += 1;
    }
    proof {
        assert(name@.take(n as int) =~= name@);
    }
    let ghost tok_full = name@.subrange(start as int, n as int);
    // Cut the token at the first dot.
    let mut j: usize = start;
    while j < n && name.get_char(j) != '.'
        invariant
            start <= j <= n,
            n == name@.len(),
            forall|k: int| start <= k < j ==> name@[k] != '.',
        decreases n - j,
    {
        j += 1;
    }
    let end = j;
    proof {
        assert forall|k: int| 0 <= k < end - start implies tok_full[k] != '.' by {
            assert(tok_full[k] == name@[start + k]);
        }
        if end < n {
            assert(tok_full[end - start] == name@[end as int]);
        }
        lemma_before_first_dot_at(tok_full, end - start);
        assert(tok_full.subrange(0, end - start) =~= name@.subrange(start as int, end as int));
    }
    let ghost token = name@.subrange(start as int, end as int);
    assert(spec_frame_number(name@) == token_value(token));
    if end == start {
        return 0;
    }
    // Skip one leading plus sign.
    let p: usize = if name.get_char(start) == '+' {
        start + 1
    } else {
        start
    };
    let ghost body = name@.subrange(p as int, end as int);
    proof {
        if name@[start as int] == '+' {
            assert(token.drop_first() =~= body);
        } else {
            assert(token =~= body);
        }
    }
    if p == end {
        return 0;
    }
    // Read the digits, bailing out on anything unparsable.
    let mut val: usize = 0;
    let mut q: usize = p;
    while q < end
        invariant
            p <= q <= end <= n,
            n == name@.len(),
            body == name@.subrange(p as int, end as int),
            val as int == digits_value(name@.subrange(p as int, q as int)),
            forall|k: int| p <= k < q ==> is_digit(#[trigger] name@[k]),
        decreases end - q,
    {
        let c = name.get_char(q);
        let u = c as u32;
        proof {
            assert(name@.subrange(p as int, q as int + 1).drop_last() =~= name@.subrange(
                p as int,
                q as int,
            ));
        }
        if u < 48 || u > 57 {
            proof {
                assert(body[q - p] == name@[q as int]);
                assert(!all_digits(body));
            }
            return 0;
        }
        let d = (u - 48) as usize;
        let overflowed: bool = match val.checked_mul(10) {
            Some(m) => match m.checked_add(d) {
                Some(next) => {
                    val = next;
                    false
                },
                None => true,
            },
            None => true,
        };
        if overflowed {
            proof {
                let prefix = name@.subrange(p as int, q as int + 1);
                assert(digits_value(prefix) > usize::MAX as int);
                if all_digits(body) {
                    assert(prefix =~= body.subrange(0, q - p + 1));
                    lemma_digits_value_prefix_grows(body, q - p + 1);
                }
            }
            return 0;
        }
        q += 1;
    }
    proof {
        assert(name@.subrange(p as int, q as int) =~= body);
        assert forall|k: int| 0 <= k < body.len() implies is_digit(#[trigger] body[k]) by {
            assert(body[k] == name@[p + k]);
        }
        assert(all_digits(body));
    }
    val
}

/// One frame file inside a frame directory.
#[derive(Debug, Clone)]
pub struct FrameInfo {
    /// Full path of the frame file.
    pub path: String,
    /// Filename of the frame.
    pub name: String,
    /// Frame number parsed from the filename, 0 when unparsable.
    pub frame_number: usize,
    /// File size in bytes.
    pub size: u64,
}

/// The mathematical content of a [`FrameInfo`].
pub ghost struct FrameView {
    pub path: Seq<char>,
    pub name: Seq<char>,
    pub frame_number: int,
    pub size: int,
}

impl View for FrameInfo {
    type V = FrameView;

    open spec fn view(&self) -> FrameView {
        FrameView {
            path: self.path@,
            name: self.name@,
            frame_number: self.frame_number as int,
            size: self.size as int,
        }
    }
}

/// The views of a sequence of frame records.
pub open spec fn frame_views(s: Seq<FrameInfo>) -> Seq<FrameView> {
    Seq::new(s.len(), |i: int| s[i]@)
}

/// The frame record a scan entry denotes, at view level.
pub open spec fn frame_view_of_entry(e: crate::fs_scan::FsEntry) -> FrameView {
    FrameView {
        path: e.path@,
        name: e.name@,
        frame_number: spec_frame_number(e.name@),
        size: e.size as int,
    }
}

/// The frame records a scan denotes, one per regular file, in scan order.
pub open spec fn frames_denoted_by(s: Seq<crate::fs_scan::FsEntry>) -> Seq<FrameView> {
    files_of(s).map_values(|e: crate::fs_scan::FsEntry| frame_view_of_entry(e))
}

/// `p` rearranges the indices `0..n`: right length, in range, injective.
pub open spec fn is_index_permutation(p: Seq<int>, n: int) -> bool {
    &&& p.len() == n
    &&& forall|k: int| 0 <= k < n ==> 0 <= #[trigger] p[k] < n
    &&& forall|a: int, b: int| 0 <= a < b < n ==> p[a] != p[b]
}

/// `after` is `before` rearranged by `p`, and records with equal frame
/// numbers keep their original relative order: the rearrangement is a
/// stable sort's.
pub open spec fn stable_arrangement(
    p: Seq<int>,
    before: Seq<FrameInfo>,
    after: Seq<FrameInfo>,
) -> bool {
    &&& is_index_permutation(p, before.len() as int)
    &&& after.len() == before.len()
    &&& forall|k: int| 0 <= k < after.len() ==> after[k] == before[#[trigger] p[k]]
    &&& forall|a: int, b: int|
        0 <= a < b < after.len() && after[a].frame_number == after[b].frame_number ==> #[trigger] p[a]
            < #[trigger] p[b]
}

/// The view-level counterpart of [`stable_arrangement`].
pub open spec fn stable_arrangement_views(
    p: Seq<int>,
    before: Seq<FrameView>,
    after: Seq<FrameView>,
) -> bool {
    &&& is_index_permutation(p, before.len() as int)
    &&& after.len() == before.len()
    &&& forall|k: int| 0 <= k < after.len() ==> after[k] == before[#[trigger] p[k]]
    &&& forall|a: int, b: int|
        0 <= a < b < after.len() && after[a].frame_number == after[b].frame_number ==> #[trigger] p[a]
            < #[trigger] p[b]
}

/// Frames ordered by ascending frame number.
pub open spec fn frames_sorted(s: Seq<FrameInfo>) -> bool {
    forall|i: int, j: int|
        0 <= i < j < s.len() ==> #[trigger] s[i].frame_number <= #[trigger] s[j].frame_number
}

/// No two frames share a number.
pub open spec fn frame_numbers_distinct(s: Seq<FrameView>) -> bool {
    forall|i: int, j: int|
        0 <= i < j < s.len() ==> #[trigger] s[i].frame_number != #[trigger] s[j].frame_number
}

proof fn lemma_frame_views_remove(s: Seq<FrameInfo>, i: int)
    requires
        0 <= i < s.len(),
    ensures
        frame_views(s.remove(i)) =~= frame_views(s).remove(i),
{
}

proof fn lemma_frame_views_insert(s: Seq<FrameInfo>, j: int, x: FrameInfo)
    requires
        0 <= j <= s.len(),
    ensures
        frame_views(s.insert(j, x)) =~= frame_views(s).insert(j, x@),
{
}

/// Inserting anywhere adds one occurrence to the multiset.
proof fn lemma_to_multiset_insert<A>(s: Seq<A>, j: int, x: A)
    requires
        0 <= j <= s.len(),
    ensures
        s.insert(j, x).to_multiset() =~= s.to_multiset().insert(x),
{
    broadcast use vstd::multiset::group_multiset_axioms;
    broadcast use vstd::seq_lib::group_to_multiset_ensures;

    assert(s.insert(j, x) =~= s.take(j).push(x) + s.skip(j));
    assert(s =~= s.take(j) + s.skip(j));
    lemma_multiset_commutative(s.take(j).push(x), s.skip(j));
    lemma_multiset_commutative(s.take(j), s.skip(j));
    assert forall|a: A|
        s.insert(j, x).to_multiset().count(a) == s.to_multiset().insert(x).count(a) by {
        assert(s.take(j).push(x).to_multiset() =~= s.take(j).to_multiset().insert(x));
    }
}

/// Sorts frames ascending by frame number in place, keeping exactly the
/// same records.
#[verifier::loop_isolation(false)]
#[verifier::rlimit(100)]
#[verifier::spinoff_prover]
pub fn sort_frames(v: &mut Vec<FrameInfo>)
    ensures
        final(v)@.len() == old(v)@.len(),
        frames_sorted(final(v)@),
        frame_views(final(v)@).to_multiset() == frame_views(old(v)@).to_multiset(),
        exists|p: Seq<int>| stable_arrangement(p, old(v)@, final(v)@),
{
    broadcast use vstd::seq_lib::group_to_multiset_ensures;
    broadcast use vstd::multiset::group_multiset_axioms;

    let ghost orig = v@;
    let ghost mut perm: Seq<int> = Seq::new(orig.len(), |k: int| k);
    proof {
        assert(stable_arrangement(perm, orig, v@));
    }
    let n = v.len();
    if n <= 1 {
        proof {
            assert(exists|p: Seq<int>| stable_arrangement(p, orig, v@)) by {
                assert(stable_arrangement(perm, orig, v@));
            }
        }
        return;
    }
    let mut i: usize = 1;
    while i < n
        invariant
            1 <= i <= n,
            n == v@.len(),
            frames_sorted(v@.take(i as int)),
            frame_views(v@).to_multiset() == frame_views(orig).to_multiset(),
            stable_arrangement(perm, orig, v@),
        decreases n - i,
    {
        let key = v[i].frame_number;
        let mut j: usize = i;
        while j > 0 && v[j - 1].frame_number > key
            invariant
                0 <= j <= i,
                forall|k: int| j <= k < i ==> #[trigger] v@[k].frame_number > key,
            decreases j,
        {
            j -= 1;
        }
        let ghost before = v@;
        let ghost before_perm = perm;
        proof {
            assert forall|p: int, q: int| 0 <= p < q < i implies #[trigger] before[p].frame_number
                <= #[trigger] before[q].frame_number by {
                assert(before.take(i as int)[p] == before[p]);
                assert(before.take(i as int)[q] == before[q]);
            }
        }
        if j < i {
            let x = v.remove(i);
            let ghost mid = v@;
            v.insert(j, x);
            proof {
                perm = before_perm.remove(i as int).insert(j as int, before_perm[i as int]);
                assert(x == before[i as int]);
                lemma_frame_views_remove(before, i as int);
                lemma_frame_views_insert(mid, j as int, x);
                lemma_to_multiset_insert(frame_views(mid), j as int, x@);
                assert(frame_views(before).to_multiset().contains(frame_views(before)[i as int]));
                assert(frame_views(v@).to_multiset() =~= frame_views(before).to_multiset());
                // indices of the reshuffled prefix, in the records and in
                // the permutation alike
                assert(v@ == before.remove(i as int).insert(j as int, x));
                assert forall|k: int| 0 <= k < j implies #[trigger] v@[k] == before[k] by {}
                assert(v@[j as int] == x);
                assert forall|k: int| j < k <= i implies #[trigger] v@[k] == before[k - 1] by {}
                assert forall|k: int| i < k < n implies #[trigger] v@[k] == before[k] by {}
                assert forall|k: int| 0 <= k < j implies #[trigger] perm[k] == before_perm[k] by {}
                assert(perm[j as int] == before_perm[i as int]);
                assert forall|k: int| j < k <= i implies #[trigger] perm[k] == before_perm[k
                    - 1] by {}
                assert forall|k: int| i < k < n implies #[trigger] perm[k] == before_perm[k] by {}
                // every new position reads some old position, bijectively
                let ghost shift = |k: int|
                    if k < j {
                        k
                    } else if k == j {
                        i as int
                    } else if k <= i {
                        k - 1
                    } else {
                        k
                    };
                assert forall|k: int| 0 <= k < n implies #[trigger] v@[k] == before[shift(k)]
                    && #[trigger] perm[k] == before_perm[shift(k)] by {}
                // the rearrangement facts carry over through the shift
                assert forall|k: int| 0 <= k < n implies #[trigger] v@[k] == orig[perm[k]] by {
                    assert(before[shift(k)] == orig[before_perm[shift(k)]]);
                }
                assert forall|a: int, b: int| 0 <= a < b < n implies #[trigger] perm[a]
                    != #[trigger] perm[b] by {
                    assert(shift(a) != shift(b));
                    assert(perm[a] == before_perm[shift(a)]);
                    assert(perm[b] == before_perm[shift(b)]);
                }
                // stability: the moved record only jumps over strictly
                // larger frame numbers
                assert forall|a: int, b: int|
                    0 <= a < b < n && v@[a].frame_number == v@[b].frame_number implies #[trigger] perm[a]
                    < #[trigger] perm[b] by {
                    if a == j && j < b <= i {
                        assert(before[b - 1].frame_number > key);
                        assert(v@[b].frame_number > key);
                        assert(v@[a].frame_number == key);
                    } else {
                        assert(shift(a) < shift(b));
                        assert(before[shift(a)].frame_number == before[shift(b)].frame_number);
                        assert(before_perm[shift(a)] < before_perm[shift(b)]);
                    }
                }
                // the new prefix is sorted: untouched below j, shifted above
                assert forall|a: int, b: int| 0 <= a < b <= i implies v@[a].frame_number
                    <= v@[b].frame_number by {
                    if b < j {
                    } else if b == j {
                        assert(v@[a] == before[a]);
                        assert(before[a].frame_number <= before[j - 1].frame_number || a == j - 1);
                    } else if a < j {
                        assert(v@[a] == before[a]);
                        assert(v@[b] == before[b - 1]);
                    } else if a == j {
                        assert(v@[b] == before[b - 1]);
                        assert(before[b - 1].frame_number > key);
                    } else {
                        assert(v@[a] == before[a - 1]);
                        assert(v@[b] == before[b - 1]);
                    }
                }
                assert forall|a: int, b: int| 0 <= a < b < i + 1 implies #[trigger] v@.take(
                    i as int + 1,
                )[a].frame_number <= #[trigger] v@.take(i as int + 1)[b].frame_number by {
                    assert(v@.take(i as int + 1)[a] == v@[a]);
                    assert(v@.take(i as int + 1)[b] == v@[b]);
                }
            }
        } else {
            proof {
                // already in place: the element at i extends the sorted prefix
                assert(j == i);
                assert(v@[i as int].frame_number == key);
                assert forall|a: int, b: int| 0 <= a < b < i + 1 implies #[trigger] v@.take(
                    i as int + 1,
                )[a].frame_number <= #[trigger] v@.take(i as int + 1)[b].frame_number by {
                    assert(v@.take(i as int + 1)[a] == v@[a]);
                    assert(v@.take(i as int + 1)[b] == v@[b]);
                    if b == i && i > 0 {
                        assert(v@[i - 1].frame_number <= key);
                        assert(v@[a].frame_number <= v@[i - 1].frame_number || a == i - 1);
                    }
                }
            }
        }
        i += 1;
    }
    proof {
        assert(v@.take(n as int) =~= v@);
        assert(exists|p: Seq<int>| stable_arrangement(p, orig, v@)) by {
            assert(stable_arrangement(perm, orig, v@));
        }
    }
}

/// Frame views ordered by ascending frame number.
pub open spec fn views_sorted(s: Seq<FrameView>) -> bool {
    forall|i: int, j: int|
        0 <= i < j < s.len() ==> #[trigger] s[i].frame_number <= #[trigger] s[j].frame_number
}

/// Two sorted frame listings with the same records and pairwise distinct
/// frame numbers are the same listing: the order `list_frames` returns is
/// canonical, whatever order the filesystem enumerated the files in.
pub proof fn lemma_sorted_frames_canonical(a: Seq<FrameView>, b: Seq<FrameView>)
    requires
        views_sorted(a),
        views_sorted(b),
        a.to_multiset() == b.to_multiset(),
        frame_numbers_distinct(a),
    ensures
        a == b,
    decreases a.len(),
{
    broadcast use vstd::seq_lib::group_to_multiset_ensures;
    broadcast use vstd::multiset::group_multiset_axioms;

    assert(a.to_multiset().len() == a.len());
    assert(b.to_multiset().len() == b.len());
    assert(a.len() == b.len());
    if a.len() == 0 {
        assert(a =~= b);
    } else {
        assert(b.contains(b[0]));
        assert(b.to_multiset().count(b[0]) > 0);
        assert(a.contains(b[0]));
        let k = choose|k: int| 0 <= k < a.len() && a[k] == b[0];
        assert(a.contains(a[0]));
        assert(a.to_multiset().count(a[0]) > 0);
        assert(b.contains(a[0]));
        let m = choose|m: int| 0 <= m < b.len() && b[m] == a[0];
        assert(a[0].frame_number <= a[k].frame_number);
        assert(b[0].frame_number <= b[m].frame_number);
        assert(a[0].frame_number == b[0].frame_number);
        assert(a[0] == b[0]) by {
            if k != 0 {
                assert(a[0].frame_number != a[k].frame_number);
            }
        }
        let at = a.drop_first();
        let bt = b.drop_first();
        assert(at =~= a.remove(0));
        assert(bt =~= b.remove(0));
        assert(at.to_multiset() == bt.to_multiset());
        assert forall|i: int, j: int| 0 <= i < j < at.len() implies #[trigger] at[i].frame_number
            <= #[trigger] at[j].frame_number by {
            assert(at[i] == a[i + 1] && at[j] == a[j + 1]);
        }
        assert forall|i: int, j: int| 0 <= i < j < bt.len() implies #[trigger] bt[i].frame_number
            <= #[trigger] bt[j].frame_number by {
            assert(bt[i] == b[i + 1] && bt[j] == b[j + 1]);
        }
        assert forall|i: int, j: int| 0 <= i < j < at.len() implies #[trigger] at[i].frame_number
            != #[trigger] at[j].frame_number by {
            assert(at[i] == a[i + 1] && at[j] == a[j + 1]);
        }
        lemma_sorted_frames_canonical(at, bt);
        assert(a =~= b) by {
            assert(forall|i: int| 1 <= i < a.len() ==> a[i] == at[i - 1] && b[i] == bt[i - 1]);
        }
    }
}

/// Builds the frame records a directory scan denotes, sorted ascending by
/// parsed frame number, ties keeping scan order: the result is a stable
/// rearrangement of the records the scan's files denote.
#[verifier::loop_isolation(false)]
pub fn frames_from_entries(entries: &Vec<crate::fs_scan::FsEntry>) -> (r: Vec<FrameInfo>)
    ensures
        frames_sorted(r@),
        frame_views(r@).to_multiset() == frames_denoted_by(entries@).to_multiset(),
        exists|p: Seq<int>|
            stable_arrangement_views(p, frames_denoted_by(entries@), frame_views(r@)),
{
    broadcast use vstd::seq_lib::group_to_multiset_ensures;

    let mut out: Vec<FrameInfo> = Vec::new();
    let n = entries.len();
    let mut k: usize = 0;
    while k < n
        invariant
            0 <= k <= n,
            n == entries@.len(),
            frame_views(out@) == frames_denoted_by(entries@.take(k as int)),
        decreases n - k,
    {
        let ghost prev = out@;
        let e = &entries[k];
        if e.is_file {
            let fnum = parse_frame_number(e.name.as_str());
            out.push(
                FrameInfo {
                    path: e.path.clone(),
                    name: e.name.clone(),
                    frame_number: fnum,
                    size: e.size,
                },
            );
        }
        proof {
            let pre = entries@.take(k as int);
            let cur = entries@.take(k as int + 1);
            assert(cur.drop_last() =~= pre);
            assert(cur.last() == entries@[k as int]);
            if entries@[k as int].is_file {
                assert(files_of(cur) == files_of(pre) + seq![entries@[k as int]]);
                assert(frames_denoted_by(cur) =~= frames_denoted_by(pre).push(
                    frame_view_of_entry(entries@[k as int]),
                ));
                assert(frame_views(out@) =~= frame_views(prev).push(out@.last()@));
                assert(out@.last()@ == frame_view_of_entry(entries@[k as int]));
            } else {
                assert(files_of(cur) == files_of(pre) + Seq::<crate::fs_scan::FsEntry>::empty());
                assert(files_of(cur) =~= files_of(pre));
                assert(frames_denoted_by(cur) =~= frames_denoted_by(pre));
            }
        }
        k += 1;
    }
    proof {
        assert(entries@.take(n as int) =~= entries@);
    }
    let ghost unsorted = out@;
    sort_frames(&mut out);
    proof {
        let denoted = frames_denoted_by(entries@);
        let p = choose|p: Seq<int>| stable_arrangement(p, unsorted, out@);
        assert(frame_views(unsorted) == denoted);
        assert(stable_arrangement_views(p, denoted, frame_views(out@))) by {
            assert forall|k: int| 0 <= k < frame_views(out@).len() implies frame_views(out@)[k]
                == denoted[#[trigger] p[k]] by {
                assert(out@[k] == unsorted[p[k]]);
                assert(frame_views(unsorted)[p[k]] == unsorted[p[k]]@);
            }
            assert forall|a: int, b: int|
                0 <= a < b < frame_views(out@).len() && frame_views(out@)[a].frame_number
                    == frame_views(out@)[b].frame_number implies #[trigger] p[a] < #[trigger] p[b] by {
                assert(out@[a].frame_number == out@[b].frame_number);
            }
        }
        assert(exists|q: Seq<int>| stable_arrangement_views(q, denoted, frame_views(out@))) by {
            assert(stable_arrangement_views(p, denoted, frame_views(out@)));
        }
    }
    out
}

/// Listing the same files twice gives the same listing, whatever order the
/// filesystem enumerated them in, as long as the parsed frame numbers are
/// pairwise distinct: the two scans denote the same records, and a sorted
/// listing of them is canonical.
pub proof fn lemma_listing_order_independent(
    e1: Seq<crate::fs_scan::FsEntry>,
    e2: Seq<crate::fs_scan::FsEntry>,
    r1: Seq<FrameInfo>,
    r2: Seq<FrameInfo>,
)
    requires
        frames_denoted_by(e1).to_multiset() == frames_denoted_by(e2).to_multiset(),
        frames_sorted(r1),
        frames_sorted(r2),
        frame_views(r1).to_multiset() == frames_denoted_by(e1).to_multiset(),
        frame_views(r2).to_multiset() == frames_denoted_by(e2).to_multiset(),
        frame_numbers_distinct(frame_views(r1)),
    ensures
        frame_views(r1) == frame_views(r2),
{
    assert(views_sorted(frame_views(r1)));
    assert(views_sorted(frame_views(r2)));
    lemma_sorted_frames_canonical(frame_views(r1), frame_views(r2));
}

/// One frame directory: an immediate subdirectory of the frame root, with
/// aggregates over its top-level files only.
#[derive(Debug, Clone)]
pub struct FrameDirInfo {
    /// Full path of the directory.
    pub path: String,
    /// Name of the directory.
    pub name: String,
    /// Number of top-level files in it.
    pub frame_count: usize,
    /// Total size of those files, in bytes.
    pub total_size: u64,
    /// Creation time as Unix seconds (0 where unavailable).
    pub created_at: u64,
}

/// Counts the regular files among a directory's entries and sums their
/// sizes, the sum saturating at the largest representable value.
#[verifier::loop_isolation(false)]
pub fn dir_totals(entries: &Vec<crate::fs_scan::FsEntry>) -> (r: (usize, u64))
    ensures
        r.0 as int == files_of(entries@).len(),
        r.1 as int == crate::clamp_u64(total_file_size(entries@)),
{
    let n = entries.len();
    let mut count: usize = 0;
    let mut size: u64 = 0;
    let mut k: usize = 0;
    while k < n
        invariant
            0 <= k <= n,
            n == entries@.len(),
            count <= k,
            count as int == files_of(entries@.take(k as int)).len(),
            size as int == crate::clamp_u64(total_file_size(entries@.take(k as int))),
        decreases n - k,
    {
        proof {
            let pre = entries@.take(k as int);
            let cur = entries@.take(k as int + 1);
            assert(cur.drop_last() =~= pre);
            assert(cur.last() == entries@[k as int]);
        }
        let e = &entries[k];
        if e.is_file {
            count += 1;
            size = size.saturating_add(e.size);
        }
        k += 1;
    }
    proof {
        assert(entries@.take(n as int) =~= entries@);
    }
    (count, size)
}

/// The record a frame directory's scan denotes: identity and creation
/// time from the subdirectory's own entry, aggregates over the scan of
/// its immediate files.
pub open spec fn frame_dir_denotes(
    d: FrameDirInfo,
    outer: crate::fs_scan::FsEntry,
    inner: Seq<crate::fs_scan::FsEntry>,
) -> bool {
    &&& d.path@ == outer.path@
    &&& d.name@ == outer.name@
    &&& d.created_at == outer.created_at
    &&& d.frame_count as int == files_of(inner).len()
    &&& d.total_size as int == crate::clamp_u64(total_file_size(inner))
}

/// Builds the record one frame directory's scan denotes.
pub fn frame_dir_record(outer: &crate::fs_scan::FsEntry, inner: &Vec<crate::fs_scan::FsEntry>)
    -> (r: FrameDirInfo)
    ensures
        frame_dir_denotes(r, *outer, inner@),
        r.frame_count == 0 ==> r.total_size == 0,
{
    let totals = dir_totals(inner);
    proof {
        if totals.0 == 0 {
            crate::fs_scan::lemma_no_files_no_size(inner@);
        }
    }
    FrameDirInfo {
        path: outer.path.clone(),
        name: outer.name.clone(),
        frame_count: totals.0,
        total_size: totals.1,
        created_at: outer.created_at,
    }
}

/// Builds one record per immediate subdirectory of a scanned root, in
/// scan order: `inners` holds one scan per subdirectory, in the same
/// order, and each record is exactly what its subdirectory's scan
/// denotes.
#[verifier::loop_isolation(false)]
pub fn frame_dirs_from_scans(
    outer: &Vec<crate::fs_scan::FsEntry>,
    inners: &Vec<Vec<crate::fs_scan::FsEntry>>,
) -> (r: Vec<FrameDirInfo>)
    requires
        inners@.len() == crate::fs_scan::dirs_of(outer@).len(),
    ensures
        r@.len() == crate::fs_scan::dirs_of(outer@).len(),
        forall|i: int|
            0 <= i < r@.len() ==> frame_dir_denotes(
                #[trigger] r@[i],
                crate::fs_scan::dirs_of(outer@)[i],
                inners@[i]@,
            ),
        forall|i: int|
            0 <= i < r@.len() ==> (#[trigger] r@[i].frame_count == 0 ==> r@[i].total_size == 0),
{
    let mut out: Vec<FrameDirInfo> = Vec::new();
    let n = outer.len();
    let m = inners.len();
    let mut j: usize = 0;
    let mut k: usize = 0;
    while k < n
        invariant
            0 <= k <= n,
            n == outer@.len(),
            m == inners@.len(),
            j == out@.len(),
            j as int == crate::fs_scan::dirs_of(outer@.take(k as int)).len(),
            forall|i: int|
                0 <= i < out@.len() ==> frame_dir_denotes(
                    #[trigger] out@[i],
                    crate::fs_scan::dirs_of(outer@.take(k as int))[i],
                    inners@[i]@,
                ),
            forall|i: int|
                0 <= i < out@.len() ==> (#[trigger] out@[i].frame_count == 0 ==> out@[i].total_size
                    == 0),
        decreases n - k,
    {
        proof {
            let pre = outer@.take(k as int);
            let cur = outer@.take(k as int + 1);
            assert(cur.drop_last() =~= pre);
            assert(cur.last() == outer@[k as int]);
            crate::fs_scan::lemma_dirs_of_len_mono(outer@, k as int + 1);
            if outer@[k as int].is_dir {
                assert(crate::fs_scan::dirs_of(cur) =~= crate::fs_scan::dirs_of(pre).push(
                    outer@[k as int],
                ));
                assert(j as int + 1 <= inners@.len());
            }
        }
        let e = &outer[k];
        if e.is_dir {
            out.push(frame_dir_record(e, &inners[j]));
            j += 1;
        }
        k += 1;
    }
    proof {
        assert(outer@.take(n as int) =~= outer@);
    }
    out
}

/// The frame-directory catalog over one root.
pub struct FrameManager {
    frames_root_dir: String,
}

impl FrameManager {
    /// The root all frame directories live under.
    pub closed spec fn root(&self) -> Seq<char> {
        self.frames_root_dir@
    }

    /// Makes a catalog over the given root. The caller is expected to have
    /// created the root directory.
    pub fn new(frames_root_dir: &str) -> (r: Self)
        ensures
            r.root() == frames_root_dir@,
    {
        FrameManager { frames_root_dir: String::from_str(frames_root_dir) }
    }

    /// Lists the immediate subdirectories of the root, each with the count
    /// and total size of its own top-level files: the root's scan and one
    /// scan per subdirectory are collected, and [`frame_dirs_from_scans`]
    /// turns them into exactly one record per scanned subdirectory, in
    /// scan order. What the filesystem holds is machine state; a record
    /// without frames carries no bytes either.
    #[verifier::loop_isolation(false)]
    pub fn list_frame_dirs(&self) -> (r: Vec<FrameDirInfo>)
        ensures
            forall|i: int|
                0 <= i < r@.len() ==> (#[trigger] r@[i].frame_count == 0 ==> r@[i].total_size
                    == 0),
    {
        let outer = crate::fs_scan::scan_dir_top(self.frames_root_dir.as_str());
        let mut inners: Vec<Vec<crate::fs_scan::FsEntry>> = Vec::new();
        let n = outer.len();
        let mut k: usize = 0;
        while k < n
            invariant
                0 <= k <= n,
                n == outer@.len(),
                inners@.len() == crate::fs_scan::dirs_of(outer@.take(k as int)).len(),
            decreases n - k,
        {
            proof {
                let pre = outer@.take(k as int);
                let cur = outer@.take(k as int + 1);
                assert(cur.drop_last() =~= pre);
                assert(cur.last() == outer@[k as int]);
            }
            let e = &outer[k];
            if e.is_dir {
                inners.push(crate::fs_scan::scan_dir_top(e.path.as_str()));
            }
            k += 1;
        }
        proof {
            assert(outer@.take(n as int) =~= outer@);
        }
        frame_dirs_from_scans(&outer, &inners)
    }

    /// Decides what listing the frames of one directory yields, given what
    /// a probe of its path found and what a scan of it read: anything but
    /// a directory is `NotFound`, and a directory yields exactly the
    /// scan's frame records, sorted ascending by parsed frame number with
    /// ties keeping scan order.
    pub fn list_frames_plan(
        &self,
        frame_dir: &str,
        found: crate::fs_scan::PathKind,
        entries: &Vec<crate::fs_scan::FsEntry>,
    ) -> (r: Result<Vec<FrameInfo>, crate::error::Error>)
        ensures
            !(found is Directory) ==> (r matches Err(e) && e matches crate::error::Error::NotFound(
                m,
            ) && m@ == frame_dir@),
            found is Directory ==> (r matches Ok(v) && {
                &&& frames_sorted(v@)
                &&& frame_views(v@).to_multiset() == frames_denoted_by(entries@).to_multiset()
                &&& exists|p: Seq<int>|
                    stable_arrangement_views(p, frames_denoted_by(entries@), frame_views(v@))
            }),
    {
        match found {
            crate::fs_scan::PathKind::Directory => Ok(frames_from_entries(entries)),
            _ => Err(crate::error::Error::NotFound(String::from_str(frame_dir))),
        }
    }

    /// Lists the frames of one frame directory, sorted ascending by parsed
    /// frame number; fails when the path is not an existing directory, in
    /// which case nothing is scanned. The decision over the probe and the
    /// scan is [`Self::list_frames_plan`].
    pub fn list_frames(&self, frame_dir: &str) -> (r: Result<Vec<FrameInfo>, crate::error::Error>)
        ensures
            r matches Ok(v) ==> frames_sorted(v@),
            r matches Err(e) ==> e matches crate::error::Error::NotFound(m) && m@ == frame_dir@,
    {
        let found = crate::fs_scan::probe_path(frame_dir);
        let entries = if matches!(found, crate::fs_scan::PathKind::Directory) {
            crate::fs_scan::scan_dir_top(frame_dir)
        } else {
            Vec::new()
        };
        self.list_frames_plan(frame_dir, found, &entries)
    }

    /// Decides what creating a frame directory named `name` should do,
    /// given what a probe of the target path found: the creation is refused
    /// when the target already exists, and the returned path is always the
    /// target under the root.
    pub fn create_frame_dir_plan(&self, name: &str, found: crate::fs_scan::PathKind) -> (r: Result<
        String,
        crate::error::Error,
    >)
        ensures
            found is Missing <==> r is Ok,
            r matches Ok(p) ==> p@ == self.root() + "/"@ + name@ && crate::paths::spec_path_in_root(
                p@,
                self.root(),
            ),
            r matches Err(e) ==> e matches crate::error::Error::AlreadyExists(m) && m@ == self.root()
                + "/"@ + name@,
    {
        let dir_path = crate::paths::join_path(self.frames_root_dir.as_str(), name);
        proof {
            crate::paths::lemma_join_stays_in_root(self.root(), name@);
        }
        match found {
            crate::fs_scan::PathKind::Missing => Ok(dir_path),
            _ => Err(crate::error::Error::AlreadyExists(dir_path)),
        }
    }

    /// Creates a new frame directory named `name` under the root: fails
    /// when the target already exists, otherwise returns the path the
    /// caller is to create.
    pub fn create_frame_dir(&self, name: &str) -> (r: Result<String, crate::error::Error>)
        ensures
            r matches Ok(p) ==> p@ == self.root() + "/"@ + name@ && crate::paths::spec_path_in_root(
                p@,
                self.root(),
            ),
            r matches Err(e) ==> e matches crate::error::Error::AlreadyExists(m) && m@ == self.root()
                + "/"@ + name@,
    {
        let dir_path = crate::paths::join_path(self.frames_root_dir.as_str(), name);
        let found = crate::fs_scan::probe_path(dir_path.as_str());
        self.create_frame_dir_plan(name, found)
    }

    /// Decides what deleting a frame directory should do, given what a
    /// probe of its path found: missing or not a directory is `NotFound`, a
    /// directory outside the root is `NotAllowed` and nothing may be
    /// removed, and only a directory inside the root is released for
    /// removal. The confinement check precedes any mutation by
    /// construction: the caller removes the tree only on `Ok`.
    pub fn delete_frame_dir_plan(&self, frame_dir: &str, found: crate::fs_scan::PathKind) -> (r:
        Result<(), crate::error::Error>)
        ensures
            !(found is Directory) ==> (r matches Err(e) && e matches crate::error::Error::NotFound(
                m,
            ) && m@ == frame_dir@),
            found is Directory && !crate::paths::spec_path_in_root(frame_dir@, self.root()) ==> (r
                matches Err(e) && e matches crate::error::Error::NotAllowed(m) && m@ == frame_dir@),
            found is Directory && crate::paths::spec_path_in_root(frame_dir@, self.root()) ==> r
                is Ok,
    {
        match found {
            crate::fs_scan::PathKind::Directory => {
                if crate::paths::path_in_root(frame_dir, self.frames_root_dir.as_str()) {
                    Ok(())
                } else {
                    Err(crate::error::Error::NotAllowed(String::from_str(frame_dir)))
                }
            },
            _ => Err(crate::error::Error::NotFound(String::from_str(frame_dir))),
        }
    }

    /// Deletes a frame directory: fails `NotFound` when the path is not an
    /// existing directory, `NotAllowed` when it escapes the root; otherwise
    /// the caller removes the tree.
    pub fn delete_frame_dir(&self, frame_dir: &str) -> (r: Result<(), crate::error::Error>)
        ensures
            r is Ok ==> crate::paths::spec_path_in_root(frame_dir@, self.root()),
            !crate::paths::spec_path_in_root(frame_dir@, self.root()) ==> r is Err,
            r matches Err(e) ==> (e matches crate::error::Error::NotFound(m) && m@ == frame_dir@)
                || (e matches crate::error::Error::NotAllowed(m) && m@ == frame_dir@),
    {
        let found = crate::fs_scan::probe_path(frame_dir);
        self.delete_frame_dir_plan(frame_dir, found)
    }
}

} // verus!

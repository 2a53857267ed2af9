//! Sets of message identifiers, written as ranges.
use vstd::prelude::*;
use core::ops::RangeInclusive;
use super::uid::{uid_values, Uid};
use vstd::std_specs::convert::FromSpecImpl;
use crate::text::{decimal, decimal_string, string_push};
use crate::imap::response::UidSetMember;

verus! {

/// The lower bound of an inclusive range.
///
/// Trusted: `RangeInclusive::start`, which std documents as returning the
/// range's lower bound.
pub assume_specification<Idx>[ RangeInclusive::<Idx>::start ](r: &RangeInclusive<Idx>) -> (res: &Idx)
    ensures
        *res == r@.start,
;

/// The upper bound of an inclusive range.
///
/// Trusted: `RangeInclusive::end`, which std documents as returning the
/// range's upper bound.
pub assume_specification<Idx>[ RangeInclusive::<Idx>::end ](r: &RangeInclusive<Idx>) -> (res: &Idx)
    ensures
        *res == r@.end,
;

/// A range: a first number and, optionally, a last one.
#[derive(Debug)]
pub struct SequenceRange {
    from: u32,
    to: Option<u32>,
}

impl View for SequenceRange {
    type V = (u32, Option<u32>);

    closed spec fn view(&self) -> (u32, Option<u32>) {
        (self.from, self.to)
    }
}

/// The last number of a range: its `to`, or else its `from`.
pub open spec fn range_last(r: (u32, Option<u32>)) -> u32 {
    match r.1 {
        Some(t) => t,
        None => r.0,
    }
}

/// The range a member of a set of identifiers stands for.
pub open spec fn member_range(m: UidSetMember) -> (u32, Option<u32>) {
    match m {
        UidSetMember::UidRange(from, to) => (from, Some(to)),
        UidSetMember::Uid(u) => (u, None),
    }
}

/// The numbers of the ranges from the `k`-th on, in order.
pub open spec fn numbers_from(rs: Seq<(u32, Option<u32>)>, k: int) -> Seq<u32>
    decreases rs.len() - k,
{
    if 0 <= k < rs.len() {
        uid_values(rs[k].0 as int, range_last(rs[k]) as int) + numbers_from(rs, k + 1)
    } else {
        Seq::empty()
    }
}

/// The numbers of the ranges, in order.
pub open spec fn numbers(rs: Seq<(u32, Option<u32>)>) -> Seq<u32> {
    numbers_from(rs, 0)
}

/// Ranges in increasing order with gaps between them, each with a `to`
/// only when it holds more than one number.
pub open spec fn canonical(rs: Seq<(u32, Option<u32>)>) -> bool {
    &&& forall|k: int| 0 <= k < rs.len() ==> (#[trigger] rs[k]).1 is Some ==> rs[k].1->0 > rs[k].0
    &&& forall|k: int| 0 <= k < rs.len() - 1 ==> range_last(#[trigger] rs[k]) + 1 < rs[k + 1].0
}

/// The notation of a range: `from:to`, or `from` alone.
pub open spec fn range_text(r: (u32, Option<u32>)) -> Seq<char> {
    match r.1 {
        Some(t) => decimal(r.0 as nat) + seq![':'] + decimal(t as nat),
        None => decimal(r.0 as nat),
    }
}

/// The notation of a set: its ranges, separated by commas.
pub open spec fn set_text(rs: Seq<(u32, Option<u32>)>) -> Seq<char>
    decreases rs.len(),
{
    if rs.len() == 0 {
        Seq::empty()
    } else if rs.len() == 1 {
        range_text(rs[0])
    } else {
        set_text(rs.drop_last()) + seq![','] + range_text(rs.last())
    }
}

impl SequenceRange {
    fn single(from: u32) -> (r: Self)
        ensures
            r@ == (from, None::<u32>),
    {
        Self { from, to: None }
    }

    fn range(from: u32, to: u32) -> (r: Self)
        ensures
            r@ == (from, Some(to)),
    {
        Self { from, to: Some(to) }
    }

    /// The notation of the range.
    pub fn to_string(&self) -> (r: String)
        ensures
            r@ == range_text(self@),
    {
        if let Some(to) = self.to {
            let mut s = decimal_string(self.from as u64);
            string_push(&mut s, ':');
            let t = decimal_string(to as u64);
            s.append(t.as_str());
            s
        } else {
            decimal_string(self.from as u64)
        }
    }
}

/// No numbers were added to a `SequenceSetBuilder`.
#[derive(Debug)]
pub struct EmptySetError {}

impl EmptySetError {
    /// The message that describes the error.
    pub fn to_string(&self) -> (r: String)
        ensures
            r@ == "No numbers in sequence set"@,
    {
        String::from_str("No numbers in sequence set")
    }
}

/// Collects numbers, in any order and with repeats, for a `SequenceSet`.
pub struct SequenceSetBuilder {
    // the numbers, strictly increasing
    nums: Vec<u32>,
}

pub open spec fn strictly_increasing(s: Seq<u32>) -> bool {
    forall|a: int, b: int| 0 <= a < b < s.len() ==> s[a] < s[b]
}

impl View for SequenceSetBuilder {
    type V = Set<u32>;

    closed spec fn view(&self) -> Set<u32> {
        self.nums@.to_set()
    }
}

impl SequenceSetBuilder {
    #[verifier::type_invariant]
    spec fn sorted(self) -> bool {
        strictly_increasing(self.nums@)
    }

    pub fn new() -> (r: Self)
        ensures
            r@ == Set::<u32>::empty(),
    {
        let r = Self { nums: Vec::new() };
        assert(r.nums@.to_set() =~= Set::<u32>::empty());
        r
    }

    pub fn add(&mut self, num: u32)
        ensures
            final(self)@ == old(self)@.insert(num),
    {
        proof {
            use_type_invariant(&*self);
        }
        let ghost before = self.nums@;
        let mut k: usize = 0;
        while k < self.nums.len() && self.nums[k] < num
            invariant
                k <= before.len(),
                self.nums@ == before,
                strictly_increasing(before),
                forall|m: int| 0 <= m < k ==> before[m] < num,
            decreases before.len() - k,
        {
            k = k + 1;
        }
        if k < self.nums.len() && self.nums[k] == num {
            assert(before.to_set().insert(num) =~= before.to_set()) by {
                assert(before.contains(num));
            }
            return;
        }
        let mut nums: Vec<u32> = Vec::new();
        core::mem::swap(&mut nums, &mut self.nums);
        nums.insert(k, num);
        proof {
            let after = nums@;
            assert(after =~= before.insert(k as int, num));
            assert forall|a: int, b: int| 0 <= a < b < after.len() implies after[a] < after[b] by {
                if b < k {
                } else if b == k {
                } else if a < k {
                    assert(after[b] == before[b - 1]);
                } else if a == k {
                    assert(after[b] == before[b - 1]);
                } else {
                    assert(after[a] == before[a - 1]);
                    assert(after[b] == before[b - 1]);
                }
            }
            assert forall|x: u32| after.to_set().contains(x) <==> before.to_set().insert(num).contains(x) by {
                if after.contains(x) {
                    let m = after.index_of(x);
                    if m < k {
                        assert(before[m] == x);
                    } else if m > k {
                        assert(before[m - 1] == x);
                    }
                }
                if before.contains(x) {
                    let m = before.index_of(x);
                    if m < k {
                        assert(after[m] == x);
                    } else {
                        assert(after[m + 1] == x);
                    }
                }
                if x == num {
                    assert(after[k as int] == num);
                }
            }
            assert(after.to_set() =~= before.to_set().insert(num));
        }
        self.nums = nums;
    }

    /// The numbers as the fewest ranges, in increasing order.
    pub fn build(self) -> (r: Result<SequenceSet, EmptySetError>)
        ensures
            r is Err <==> self@.is_empty(),
            r matches Ok(set) ==> canonical(set@) && forall|x: u32|
                self@.contains(x) <==> #[trigger] numbers(set@).contains(x),
    {
        proof {
            use_type_invariant(&self);
        }
        let ghost whole = self@;
        let nums = self.nums;
        if nums.len() == 0 {
            assert(whole =~= Set::<u32>::empty());
            return Err(EmptySetError {});
        }
        assert(whole.contains(nums@[0]));
        let mut ranges: Vec<SequenceRange> = Vec::new();
        let mut current_range = SequenceRange::single(nums[0]);
        proof {
            let all = seq![current_range@];
            assert(ranges@.map_values(|r: SequenceRange| r@).push(current_range@) =~= all);
            assert(numbers_from(all, 1) =~= Seq::<u32>::empty());
            assert(numbers(all) =~= nums@.subrange(0, 1));
        }
        let mut k: usize = 1;
        while k < nums.len()
            invariant
                1 <= k <= nums@.len(),
                strictly_increasing(nums@),
                canonical(ranges@.map_values(|r: SequenceRange| r@).push(current_range@)),
                numbers(ranges@.map_values(|r: SequenceRange| r@).push(current_range@))
                    == nums@.subrange(0, k as int),
                range_last(current_range@) == nums@[k - 1],
            decreases nums@.len() - k,
        {
            let num = nums[k];
            let ghost prefix = ranges@.map_values(|r: SequenceRange| r@);
            let ghost old_current = current_range@;
            let ghost old_all = prefix.push(old_current);
            assert(num > nums@[k - 1]);
            let extend = if let Some(to) = current_range.to {
                num == to + 1
            } else {
                num == current_range.from + 1
            };
            if extend {
                current_range.to = Some(num);
                proof {
                    lemma_build_extend(prefix, old_current, nums@, k as int);
                }
            } else {
                ranges.push(current_range);
                current_range = SequenceRange::single(num);
                proof {
                    assert(ranges@.map_values(|r: SequenceRange| r@) =~= old_all);
                    lemma_build_start(prefix, old_current, nums@, k as int);
                }
            }
            k = k + 1;
        }
        let ghost final_all = ranges@.map_values(|r: SequenceRange| r@).push(current_range@);
        ranges.push(current_range);
        let set = SequenceSet { ranges };
        proof {
            assert(set@ =~= final_all);
            assert(nums@.subrange(0, nums@.len() as int) =~= nums@);
            assert forall|x: u32| whole.contains(x) <==> #[trigger] numbers(set@).contains(x) by {
                assert(whole.contains(x) <==> nums@.contains(x));
            }
        }
        Ok(set)
    }
}

/// The numbers of the ranges from the `k`-th on of canonical ranges rise
/// strictly, and none lies below the `k`-th range's first number.
proof fn lemma_numbers_from_increasing(rs: Seq<(u32, Option<u32>)>, k: int)
    requires
        canonical(rs),
        0 <= k <= rs.len(),
    ensures
        strictly_increasing(numbers_from(rs, k)),
        k < rs.len() ==> forall|i: int| 0 <= i < numbers_from(rs, k).len() ==> rs[k].0 <= #[trigger] numbers_from(rs, k)[i],
    decreases rs.len() - k,
{
    if k < rs.len() {
        lemma_numbers_from_increasing(rs, k + 1);
        let head = uid_values(rs[k].0 as int, range_last(rs[k]) as int);
        let tail = numbers_from(rs, k + 1);
        let all = numbers_from(rs, k);
        assert(all == head + tail);
        assert(forall|i: int| 0 <= i < head.len() ==> #[trigger] head[i] == rs[k].0 + i && head[i] <= range_last(rs[k]));
        if k + 1 < rs.len() {
            assert(range_last(rs[k]) + 1 < rs[k + 1].0);
        }
        assert forall|a: int, b: int| 0 <= a < b < all.len() implies all[a] < all[b] by {
            if b < head.len() {
                assert(all[a] == head[a]);
                assert(all[b] == head[b]);
            } else if a < head.len() {
                assert(all[a] == head[a]);
                assert(all[b] == tail[b - head.len()]);
            } else {
                assert(all[a] == tail[a - head.len()]);
                assert(all[b] == tail[b - head.len()]);
            }
        }
        assert forall|i: int| 0 <= i < all.len() implies rs[k].0 <= #[trigger] all[i] by {
            if i < head.len() {
                assert(all[i] == head[i]);
            } else {
                assert(all[i] == tail[i - head.len()]);
                if k + 1 < rs.len() {
                    assert(rs[k + 1].0 <= tail[i - head.len()]);
                }
            }
        }
    }
}

/// The identifiers of canonical ranges, as a built `SequenceSet` has them,
/// come out in strictly increasing order, each once.
pub proof fn lemma_canonical_numbers_increasing(rs: Seq<(u32, Option<u32>)>)
    requires
        canonical(rs),
    ensures
        strictly_increasing(numbers(rs)),
{
    lemma_numbers_from_increasing(rs, 0);
}

/// A set built from numbers hands out exactly those numbers, each once, in
/// increasing order.
pub proof fn lemma_built_set_hands_out_sorted(added: Set<u32>, rs: Seq<(u32, Option<u32>)>)
    requires
        canonical(rs),
        forall|x: u32| added.contains(x) <==> #[trigger] numbers(rs).contains(x),
    ensures
        strictly_increasing(numbers(rs)),
        numbers(rs).to_set() == added,
{
    lemma_canonical_numbers_increasing(rs);
    assert(numbers(rs).to_set() =~= added);
}

/// What the numbers of canonical ranges look like from the `k`-th range on:
/// the run of that range, then, after a gap, the numbers of the next ones.
proof fn lemma_numbers_from_shape(rs: Seq<(u32, Option<u32>)>, k: int)
    requires
        canonical(rs),
        0 <= k < rs.len(),
    ensures
        rs[k].0 <= range_last(rs[k]),
        numbers_from(rs, k).len() >= range_last(rs[k]) - rs[k].0 + 1,
        forall|j: int|
            0 <= j <= range_last(rs[k]) - rs[k].0 ==> #[trigger] numbers_from(rs, k)[j] == rs[k].0
                + j,
        k + 1 < rs.len() ==> numbers_from(rs, k).len() > range_last(rs[k]) - rs[k].0 + 1
            && numbers_from(rs, k)[range_last(rs[k]) - rs[k].0 + 1] == rs[k + 1].0,
        k + 1 == rs.len() ==> numbers_from(rs, k).len() == range_last(rs[k]) - rs[k].0 + 1,
        numbers_from(rs, k + 1) == numbers_from(rs, k).subrange(
            range_last(rs[k]) - rs[k].0 + 1,
            numbers_from(rs, k).len() as int,
        ),
{
    let head = uid_values(rs[k].0 as int, range_last(rs[k]) as int);
    let tail = numbers_from(rs, k + 1);
    assert(numbers_from(rs, k) == head + tail);
    assert(head.len() == range_last(rs[k]) - rs[k].0 + 1);
    assert(numbers_from(rs, k + 1) =~= (head + tail).subrange(head.len() as int, (head + tail).len() as int));
    if k + 1 < rs.len() {
        let next = uid_values(rs[k + 1].0 as int, range_last(rs[k + 1]) as int);
        assert(tail == next + numbers_from(rs, k + 2));
        assert(next.len() >= 1);
        assert(tail[0] == rs[k + 1].0);
        assert((head + tail)[head.len() as int] == tail[0]);
    } else {
        assert(tail.len() == 0);
    }
}

/// Canonical ranges with the same numbers from the `k`-th range on are the
/// same ranges from there on.
proof fn lemma_canonical_unique_from(rs1: Seq<(u32, Option<u32>)>, rs2: Seq<(u32, Option<u32>)>, k: int)
    requires
        canonical(rs1),
        canonical(rs2),
        0 <= k <= rs1.len(),
        k <= rs2.len(),
        numbers_from(rs1, k) == numbers_from(rs2, k),
    ensures
        rs1.len() == rs2.len(),
        forall|j: int| k <= j < rs1.len() ==> rs1[j] == rs2[j],
    decreases rs1.len() - k,
{
    if k == rs1.len() || k == rs2.len() {
        if k < rs1.len() {
            lemma_numbers_from_shape(rs1, k);
        }
        if k < rs2.len() {
            lemma_numbers_from_shape(rs2, k);
        }
    } else {
        lemma_numbers_from_shape(rs1, k);
        lemma_numbers_from_shape(rs2, k);
        let n = numbers_from(rs1, k);
        let a1 = rs1[k].0;
        let a2 = rs2[k].0;
        assert(n[0] == a1);
        assert(n[0] == a2);
        let l1 = range_last(rs1[k]) - a1 + 1;
        let l2 = range_last(rs2[k]) - a2 + 1;
        if l1 < l2 {
            assert(n[l1] == a1 + l1);
            assert(k + 1 < rs1.len());
            assert(range_last(rs1[k]) + 1 < rs1[k + 1].0);
        }
        if l2 < l1 {
            assert(n[l2] == a2 + l2);
            assert(k + 1 < rs2.len());
            assert(range_last(rs2[k]) + 1 < rs2[k + 1].0);
        }
        assert(l1 == l2);
        assert(rs1[k] == rs2[k]);
        lemma_canonical_unique_from(rs1, rs2, k + 1);
    }
}

/// Strictly increasing sequences that agree on their first `i` elements and
/// hold the same numbers agree on the next one, or both end there.
proof fn lemma_sorted_unique_from(s1: Seq<u32>, s2: Seq<u32>, i: int)
    requires
        strictly_increasing(s1),
        strictly_increasing(s2),
        s1.to_set() == s2.to_set(),
        0 <= i <= s1.len(),
        i <= s2.len(),
        forall|j: int| 0 <= j < i ==> s1[j] == s2[j],
    ensures
        s1 == s2,
    decreases s1.len() - i,
{
    if i < s1.len() {
        assert(s1.to_set().contains(s1[i]));
        assert(s2.contains(s1[i]));
        let m = choose|m: int| 0 <= m < s2.len() && s2[m] == s1[i];
        assert(m >= i) by {
            if m < i {
                assert(s1[m] == s2[m]);
            }
        }
    }
    if i < s2.len() {
        assert(s2.to_set().contains(s2[i]));
        assert(s1.contains(s2[i]));
        let m = choose|m: int| 0 <= m < s1.len() && s1[m] == s2[i];
        assert(m >= i) by {
            if m < i {
                assert(s1[m] == s2[m]);
            }
        }
    }
    if i < s1.len() && i < s2.len() {
        lemma_sorted_unique_from(s1, s2, i + 1);
    } else {
        assert(s1.len() == s2.len());
        assert(s1 =~= s2);
    }
}

/// Two canonical lists of ranges that hold the same numbers are the same
/// list: building a set of identifiers gives one result, whatever the order
/// in which the numbers were added and however often each was.
pub proof fn lemma_canonical_unique(added: Set<u32>, rs1: Seq<(u32, Option<u32>)>, rs2: Seq<(u32, Option<u32>)>)
    requires
        canonical(rs1),
        canonical(rs2),
        forall|x: u32| added.contains(x) <==> #[trigger] numbers(rs1).contains(x),
        forall|x: u32| added.contains(x) <==> #[trigger] numbers(rs2).contains(x),
    ensures
        rs1 == rs2,
        set_text(rs1) == set_text(rs2),
        numbers(rs1) == numbers(rs2),
{
    lemma_canonical_numbers_increasing(rs1);
    lemma_canonical_numbers_increasing(rs2);
    assert(numbers(rs1).to_set() =~= numbers(rs2).to_set());
    lemma_sorted_unique_from(numbers(rs1), numbers(rs2), 0);
    lemma_canonical_unique_from(rs1, rs2, 0);
    assert(rs1 =~= rs2);
}

/// The numbers a builder holds after adding each of `xs` to an empty one.
pub open spec fn filled(xs: Seq<u32>) -> Set<u32>
    decreases xs.len(),
{
    if xs.len() == 0 {
        Set::empty()
    } else {
        filled(xs.drop_last()).insert(xs.last())
    }
}

/// Adding numbers one by one gives the set of those numbers, so any order
/// and any repeats give the same builder.
pub proof fn lemma_filled_is_set(xs: Seq<u32>)
    ensures
        filled(xs) == xs.to_set(),
    decreases xs.len(),
{
    if xs.len() > 0 {
        lemma_filled_is_set(xs.drop_last());
        assert forall|x: u32| #[trigger] xs.to_set().contains(x) <==> xs.drop_last().to_set().insert(xs.last()).contains(x) by {
            if xs.contains(x) {
                let i = choose|i: int| 0 <= i < xs.len() && xs[i] == x;
                if i < xs.len() - 1 {
                    assert(xs.drop_last()[i] == x);
                }
            }
            if xs.drop_last().contains(x) {
                let i = choose|i: int| 0 <= i < xs.drop_last().len() && xs.drop_last()[i] == x;
                assert(xs[i] == x);
            }
            if x == xs.last() {
                assert(xs[xs.len() - 1] == x);
            }
        }
        assert(xs.to_set() =~= xs.drop_last().to_set().insert(xs.last()));
    } else {
        assert(xs.to_set() =~= Set::<u32>::empty());
    }
}

/// Extending the last range by the next number keeps the ranges canonical
/// and covering the numbers seen so far.
proof fn lemma_build_extend(
    prefix: Seq<(u32, Option<u32>)>,
    current: (u32, Option<u32>),
    nums: Seq<u32>,
    k: int,
)
    requires
        1 <= k < nums.len(),
        canonical(prefix.push(current)),
        numbers(prefix.push(current)) == nums.subrange(0, k),
        range_last(current) == nums[k - 1],
        nums[k] == range_last(current) + 1,
    ensures
        canonical(prefix.push((current.0, Some(nums[k])))),
        numbers(prefix.push((current.0, Some(nums[k])))) == nums.subrange(0, k + 1),
{
    let num = nums[k];
    let old_all = prefix.push(current);
    let all = prefix.push((current.0, Some(num)));
    assert(old_all[prefix.len() as int] == current);
    lemma_numbers_push(prefix, current, 0);
    lemma_numbers_push(prefix, (current.0, Some(num)), 0);
    lemma_values_extend(current.0 as int, range_last(current) as int);
    assert(nums.subrange(0, k + 1) =~= nums.subrange(0, k).push(num));
    assert(numbers(all) =~= nums.subrange(0, k + 1));
    assert forall|m: int| 0 <= m < all.len() - 1 implies range_last(#[trigger] all[m]) + 1 < all[m
        + 1].0 by {
        assert(all[m] == old_all[m]);
        assert(all[m + 1].0 == old_all[m + 1].0);
    }
    assert forall|m: int| 0 <= m < all.len() && (#[trigger] all[m]).1 is Some implies all[m].1->0
        > all[m].0 by {
        if m < all.len() - 1 {
            assert(all[m] == old_all[m]);
        }
    }
}

/// Starting a new range at a number beyond the next keeps the ranges
/// canonical and covering the numbers seen so far.
proof fn lemma_build_start(
    prefix: Seq<(u32, Option<u32>)>,
    current: (u32, Option<u32>),
    nums: Seq<u32>,
    k: int,
)
    requires
        1 <= k < nums.len(),
        canonical(prefix.push(current)),
        numbers(prefix.push(current)) == nums.subrange(0, k),
        range_last(current) == nums[k - 1],
        nums[k] > range_last(current) + 1,
    ensures
        canonical(prefix.push(current).push((nums[k], None))),
        numbers(prefix.push(current).push((nums[k], None))) == nums.subrange(0, k + 1),
{
    let num = nums[k];
    let old_all = prefix.push(current);
    let all = old_all.push((num, None));
    lemma_numbers_push(old_all, (num, None), 0);
    assert(uid_values(num as int, num as int) =~= seq![num]);
    assert(nums.subrange(0, k + 1) =~= nums.subrange(0, k).push(num));
    assert(numbers(all) =~= nums.subrange(0, k + 1));
    assert forall|m: int| 0 <= m < all.len() - 1 implies range_last(#[trigger] all[m]) + 1 < all[m
        + 1].0 by {
        if m < all.len() - 2 {
            assert(all[m] == old_all[m]);
            assert(all[m + 1] == old_all[m + 1]);
        } else {
            assert(all[m] == current);
        }
    }
    assert forall|m: int| 0 <= m < all.len() && (#[trigger] all[m]).1 is Some implies all[m].1->0
        > all[m].0 by {
        if m < all.len() - 1 {
            assert(all[m] == old_all[m]);
        }
    }
}

/// Adding a range at the end adds its numbers at the end.
proof fn lemma_numbers_push(rs: Seq<(u32, Option<u32>)>, r: (u32, Option<u32>), j: int)
    requires
        0 <= j <= rs.len(),
    ensures
        numbers_from(rs.push(r), j) == numbers_from(rs, j) + uid_values(
            r.0 as int,
            range_last(r) as int,
        ),
    decreases rs.len() - j,
{
    if j < rs.len() {
        lemma_numbers_push(rs, r, j + 1);
        assert(rs.push(r)[j] == rs[j]);
        assert(uid_values(rs[j].0 as int, range_last(rs[j]) as int) + (numbers_from(rs, j + 1)
            + uid_values(r.0 as int, range_last(r) as int)) =~= uid_values(
            rs[j].0 as int,
            range_last(rs[j]) as int,
        ) + numbers_from(rs, j + 1) + uid_values(r.0 as int, range_last(r) as int));
    } else {
        assert(numbers_from(rs.push(r), j + 1) =~= Seq::<u32>::empty());
        assert(numbers_from(rs, j) =~= Seq::<u32>::empty());
        assert(rs.push(r)[j] == r);
        assert(uid_values(r.0 as int, range_last(r) as int) + Seq::<u32>::empty() =~= uid_values(
            r.0 as int,
            range_last(r) as int,
        ));
        assert(Seq::<u32>::empty() + uid_values(r.0 as int, range_last(r) as int) =~= uid_values(
            r.0 as int,
            range_last(r) as int,
        ));
    }
}

proof fn lemma_values_extend(from: int, last: int)
    requires
        from <= last < u32::MAX,
    ensures
        uid_values(from, last + 1) == uid_values(from, last).push((last + 1) as u32),
{
    assert(uid_values(from, last + 1) =~= uid_values(from, last).push((last + 1) as u32));
}

#[derive(Debug)]
pub struct SequenceSet {
    ranges: Vec<SequenceRange>,
}

impl View for SequenceSet {
    type V = Seq<(u32, Option<u32>)>;

    closed spec fn view(&self) -> Seq<(u32, Option<u32>)> {
        self.ranges@.map_values(|r: SequenceRange| r@)
    }
}

impl SequenceSet {
    fn with_range(from: u32, to: u32) -> (r: Self)
        ensures
            r@ == seq![(from, Some(to))],
    {
        let mut ranges: Vec<SequenceRange> = Vec::new();
        ranges.push(SequenceRange::range(from, to));
        let r = Self { ranges };
        assert(r@ =~= seq![(from, Some(to))]);
        r
    }

    /// Every identifier: `1:4294967295`.
    pub fn all() -> (r: Self)
        ensures
            r@ == seq![(1u32, Some(u32::MAX))],
    {
        Self::with_range(1, u32::MAX)
    }

    /// The set with one range `start:end` for each range given, in order.
    pub fn from_ranges(value: &Vec<RangeInclusive<u32>>) -> (r: Self)
        ensures
            r@ == Seq::new(value@.len(), |k: int| (value@[k]@.start, Some(value@[k]@.end))),
    {
        let mut ranges: Vec<SequenceRange> = Vec::new();
        let mut k: usize = 0;
        while k < value.len()
            invariant
                k <= value@.len(),
                ranges@.map_values(|r: SequenceRange| r@) =~= Seq::new(
                    k as nat,
                    |m: int| (value@[m]@.start, Some(value@[m]@.end)),
                ),
            decreases value@.len() - k,
        {
            let range = &value[k];
            let start = *range.start();
            let end = *range.end();
            assert(start == value@[k as int]@.start);
            let ghost before = ranges@.map_values(|r: SequenceRange| r@);
            ranges.push(SequenceRange::range(start, end));
            assert(ranges@.map_values(|r: SequenceRange| r@) =~= before.push((start, Some(end))));
            k = k + 1;
        }
        Self { ranges }
    }

    /// The set with one range for each member given, in order: `a:b` for a
    /// range of members, `u` for a single one.
    pub fn from_members(members: &Vec<UidSetMember>) -> (r: Self)
        ensures
            r@ == Seq::new(members@.len(), |k: int| member_range(members@[k])),
    {
        let mut ranges: Vec<SequenceRange> = Vec::new();
        let mut k: usize = 0;
        while k < members.len()
            invariant
                k <= members@.len(),
                ranges@.map_values(|r: SequenceRange| r@) =~= Seq::new(
                    k as nat,
                    |m: int| member_range(members@[m]),
                ),
            decreases members@.len() - k,
        {
            let range = match members[k] {
                UidSetMember::UidRange(from, to) => SequenceRange::range(from, to),
                UidSetMember::Uid(u) => SequenceRange::single(u),
            };
            let ghost before = ranges@.map_values(|r: SequenceRange| r@);
            ranges.push(range);
            assert(ranges@.map_values(|r: SequenceRange| r@) =~= before.push(member_range(members@[k as int])));
            k = k + 1;
        }
        Self { ranges }
    }

    /// The notation of the set, as in an IMAP command: `1:3,5,7:9`.
    pub fn to_string(&self) -> (r: String)
        ensures
            r@ == set_text(self@),
    {
        let mut s = String::new();
        let mut k: usize = 0;
        assert(self@.subrange(0, 0) =~= Seq::<(u32, Option<u32>)>::empty());
        while k < self.ranges.len()
            invariant
                k <= self@.len(),
                self@.len() == self.ranges@.len(),
                s@ == set_text(self@.subrange(0, k as int)),
            decreases self@.len() - k,
        {
            let ghost before = self@.subrange(0, k as int);
            if k > 0 {
                string_push(&mut s, ',');
            }
            let text = self.ranges[k].to_string();
            s.append(text.as_str());
            k = k + 1;
            proof {
                let now = self@.subrange(0, k as int);
                assert(now.drop_last() =~= before);
                assert(now.last() == self.ranges@[k - 1]@);
                if k == 1 {
                    assert(now.len() == 1);
                    assert(before.len() == 0);
                    assert(s@ =~= range_text(now[0]));
                } else {
                    assert(s@ =~= set_text(before) + seq![','] + range_text(now.last()));
                }
            }
        }
        assert(self@.subrange(0, k as int) =~= self@);
        s
    }

    /// The identifiers of the set, in order. No range may start at zero.
    pub fn iter(&self) -> (r: SequenceSetIter<'_>)
        requires
            forall|k: int| 0 <= k < self@.len() ==> #[trigger] self@[k].0 != 0,
        ensures
            r.remaining() == numbers(self@),
    {
        let next: u64 = if self.ranges.len() > 0 {
            self.ranges[0].from as u64
        } else {
            1
        };
        assert(self@.len() == self.ranges@.len());
        proof {
            if self.ranges@.len() > 0 {
                assert(self@[0] == self.ranges@[0]@);
                assert(numbers(self@) == uid_values(next as int, range_last(self@[0]) as int)
                    + numbers_from(self@, 1));
            } else {
                assert(numbers(self@) =~= Seq::<u32>::empty());
            }
        }
        SequenceSetIter { set: self, index: 0, next }
    }
}

/// The identifiers of a `SequenceSet`, handed out one at a time.
pub struct SequenceSetIter<'a> {
    set: &'a SequenceSet,
    index: usize,
    next: u64,
}

impl<'a> SequenceSetIter<'a> {
    #[verifier::type_invariant]
    spec fn consistent(self) -> bool {
        &&& self.index <= self.set@.len()
        &&& self.set@.len() == self.set.ranges@.len()
        &&& forall|k: int| 0 <= k < self.set@.len() ==> #[trigger] self.set@[k].0 != 0
        &&& self.index < self.set@.len() ==> self.set@[self.index as int].0 <= self.next
    }

    /// The identifiers still to come, in order.
    pub closed spec fn remaining(&self) -> Seq<u32> {
        if self.index < self.set@.len() {
            uid_values(self.next as int, range_last(self.set@[self.index as int]) as int)
                + numbers_from(self.set@, self.index + 1)
        } else {
            Seq::empty()
        }
    }

    /// The next identifier, if any is left.
    pub fn next(&mut self) -> (r: Option<Uid>)
        ensures
            old(self).remaining().len() == 0 ==> r is None && final(self).remaining().len() == 0,
            old(self).remaining().len() > 0 ==> (r matches Some(u) && u@ == old(
                self,
            ).remaining()[0] && final(self).remaining() == old(self).remaining().drop_first()),
    {
        let ghost start = self.remaining();
        loop
            invariant
                self.remaining() == start,
                start == old(self).remaining(),
            decreases self.set@.len() - self.index,
        {
            proof {
                use_type_invariant(&*self);
            }
            let set = self.set;
            let index = self.index;
            if index >= set.ranges.len() {
                return None;
            }
            let range = &set.ranges[index];
            assert(set@[index as int] == range@);
            let last = match range.to {
                Some(to) => to,
                None => range.from,
            };
            if self.next <= last as u64 {
                let value = self.next as u32;
                assert(value != 0);
                *self = SequenceSetIter { set, index, next: self.next + 1 };
                proof {
                    let vals = uid_values(value as int, last as int);
                    assert(vals =~= seq![value] + uid_values(value + 1, last as int));
                    assert(start =~= seq![value] + self.remaining());
                }
                proof {
                    broadcast use super::uid::lemma_spec_uid_view;
                }
                return match Uid::try_from_u32(value) {
                    Ok(uid) => Some(uid),
                    Err(_) => None,
                };
            }
            assert(uid_values(self.next as int, last as int) =~= Seq::<u32>::empty());
            let new_index = index + 1;
            let next = if new_index < set.ranges.len() {
                set.ranges[new_index].from as u64
            } else {
                self.next
            };
            proof {
                if new_index < set@.len() {
                    assert(set@[new_index as int] == set.ranges@[new_index as int]@);
                }
                assert(set@.len() == set.ranges@.len());
            }
            *self = SequenceSetIter { set, index: new_index, next };
            proof {
                if self.index < self.set@.len() {
                    assert(numbers_from(self.set@, self.index as int) == uid_values(
                        self.next as int,
                        range_last(self.set@[self.index as int]) as int,
                    ) + numbers_from(self.set@, self.index + 1));
                }
                assert(Seq::<u32>::empty() + numbers_from(self.set@, self.index as int)
                    =~= self.remaining());
            }
        }
    }
}

impl From<&Vec<RangeInclusive<u32>>> for SequenceSet {
    fn from(value: &Vec<RangeInclusive<u32>>) -> (r: Self)
        ensures
            r@ == Seq::new(value@.len(), |k: int| (value@[k]@.start, Some(value@[k]@.end))),
    {
        SequenceSet::from_ranges(value)
    }
}

/// Two sets with the same ranges may still differ as values (their vectors
/// cannot be compared in a spec), so no single value can stand for the
/// conversion's result here; `from` itself states the ranges it gives.
impl FromSpecImpl<&Vec<RangeInclusive<u32>>> for SequenceSet {
    open spec fn obeys_from_spec() -> bool {
        false
    }

    closed spec fn from_spec(value: &Vec<RangeInclusive<u32>>) -> SequenceSet {
        choose|s: SequenceSet| s@ == Seq::new(
            value@.len(),
            |k: int| (value@[k]@.start, Some(value@[k]@.end)),
        )
    }
}

} // verus!

//! Which globs are moderate.

use vstd::prelude::*;

use crate::glob::{
    group_depth, is_moderate, largest_bound, level_count, repeat_count, scanned, work_depth,
    GlobScan, GroupScan,
};

verus! {

/// A glob is moderate where its regular expression has no more than 250 levels, no more than 123
/// groups are open at once, no more than 12 repetitions of several things stand one in another, no
/// bound is above the largest `u32`, and a text that is repeated has a size.
pub proof fn moderate_globs_are_bounded(pattern: Seq<char>)
    ensures
        is_moderate(pattern) == (level_count(pattern) <= 250 && group_depth(pattern) <= 123
            && work_depth(pattern) <= 12 && largest_bound(pattern) <= 0xffff_ffff && (repeat_count(
            pattern,
        ) > 1 ==> repeat_count(pattern) * pattern.len() <= usize::MAX / 4)),
{
}

/// Whether a pattern has no groups and no bounds.
pub open spec fn has_no_groups(pattern: Seq<char>) -> bool {
    forall|i: int|
        0 <= i < pattern.len() ==> {
            let c = #[trigger] pattern[i];
            c != '{' && c != '}' && c != '<' && c != '>' && c != ':'
        }
}

proof fn lemma_no_groups(pattern: Seq<char>)
    requires
        has_no_groups(pattern),
    ensures
        ({
            let scan = scanned(pattern);
            &&& scan.groups.len() == 1
            &&& scan.deepest == 0
            &&& scan.largest_bound == 0
            &&& !scan.in_bounds
            &&& scan.groups[0].groups == 0
            &&& scan.groups[0].group_levels == 0
            &&& scan.groups[0].work == 0
            &&& scan.groups[0].times == 1
        }),
    decreases pattern.len(),
{
    if pattern.len() > 0 {
        let front = pattern.drop_last();
        assert forall|i: int| 0 <= i < front.len() implies ({
            let c = #[trigger] front[i];
            c != '{' && c != '}' && c != '<' && c != '>' && c != ':'
        }) by {
            assert(front[i] == pattern[i]);
        }
        lemma_no_groups(front);
        let c = pattern.last();
        assert(c == pattern[pattern.len() - 1]);
        let before = scanned(front);
        assert(before.groups.drop_last().push(before.groups.last()) =~= before.groups);
    }
}

/// A glob without groups is moderate, whatever wildcards and classes it has.
pub proof fn globs_without_groups_are_moderate(pattern: Seq<char>)
    requires
        has_no_groups(pattern),
    ensures
        is_moderate(pattern),
        group_depth(pattern) == 0,
        repeat_count(pattern) == 1,
{
    lemma_no_groups(pattern);
}

/// Reading on never makes the groups that were open at once fewer, nor the largest bound smaller.
pub proof fn reading_on_forgets_no_depth(pattern: Seq<char>, more: Seq<char>)
    ensures
        group_depth(pattern) <= group_depth(pattern + more),
        largest_bound(pattern) <= largest_bound(pattern + more),
    decreases more.len(),
{
    if more.len() == 0 {
        assert(pattern + more =~= pattern);
    } else {
        let all = pattern + more;
        assert(all.drop_last() =~= pattern + more.drop_last());
        reading_on_forgets_no_depth(pattern, more.drop_last());
    }
}

/// `n` times the same character.
pub open spec fn times(c: char, n: nat) -> Seq<char> {
    Seq::new(n, |i: int| c)
}

proof fn lemma_opened(n: nat)
    ensures
        scanned(times('{', n)) == (GlobScan {
            groups: Seq::new(n + 1, |i: int| GroupScan::start(false)),
            deepest: n,
            ..GlobScan::start()
        }),
    decreases n,
{
    let opened = Seq::new(n + 1, |i: int| GroupScan::start(false));
    if n == 0 {
        assert(times('{', n) =~= Seq::empty());
        assert(GlobScan::start().groups =~= opened);
    } else {
        let fewer = (n - 1) as nat;
        lemma_opened(fewer);
        assert(times('{', n).drop_last() =~= times('{', fewer));
        assert(times('{', n).last() == '{');
        assert(Seq::new(fewer + 1, |i: int| GroupScan::start(false)).push(GroupScan::start(false))
            =~= opened);
    }
}

/// Groups that stand one in another are counted.
pub proof fn open_groups_are_counted(n: nat, more: Seq<char>)
    ensures
        group_depth(times('{', n)) == n,
        n > 123 ==> !is_moderate(times('{', n) + more),
{
    lemma_opened(n);
    reading_on_forgets_no_depth(times('{', n), more);
}

/// A group that holds nothing but groups, `k` of them one in another.
pub open spec fn holding(k: nat) -> GroupScan {
    if k == 0 {
        GroupScan::start(false)
    } else {
        GroupScan { groups: 1, group_levels: 2 * k + 1, ..GroupScan::start(false) }
    }
}

proof fn lemma_closed(n: nat, k: nat)
    requires
        k <= n,
    ensures
        scanned(times('{', n) + times('}', k)) == (GlobScan {
            groups: Seq::new((n - k) as nat, |i: int| GroupScan::start(false)).push(holding(k)),
            deepest: n,
            ..GlobScan::start()
        }),
    decreases k,
{
    let groups = Seq::new((n - k) as nat, |i: int| GroupScan::start(false)).push(holding(k));
    let pattern = times('{', n) + times('}', k);
    if k == 0 {
        lemma_opened(n);
        assert(pattern =~= times('{', n));
        assert(groups =~= Seq::new(n + 1, |i: int| GroupScan::start(false)));
    } else {
        let fewer = (k - 1) as nat;
        lemma_closed(n, fewer);
        assert(pattern.drop_last() =~= times('{', n) + times('}', fewer));
        assert(pattern.last() == '}');
        let before = scanned(pattern.drop_last());
        assert(before.groups.len() == n - fewer + 1);
        let outer = before.groups.drop_last();
        assert(outer.last() == GroupScan::start(false));
        assert(outer.drop_last().push(holding(k)) =~= groups);
        assert(before.groups.last() == holding(fewer));
        assert(outer.last().with_group(holding(fewer), 0) == holding(k));
    }
}

/// Each group around another has two levels, and the innermost one three; four more stand around
/// all of them.
pub proof fn nested_groups_have_two_levels_each(n: nat)
    requires
        n > 0,
    ensures
        level_count(times('{', n) + times('}', n)) == 2 * n + 5,
        group_depth(times('{', n) + times('}', n)) == n,
        is_moderate(times('{', n) + times('}', n)) == (n <= 122),
{
    lemma_closed(n, n);
    let scan = scanned(times('{', n) + times('}', n));
    assert(scan.groups[0] == holding(n));
}

/// An escaped character stands for itself: it opens and closes no group, begins no class and no
/// bounds.
pub proof fn escaped_characters_stand_for_themselves(pattern: Seq<char>, c: char)
    requires
        !scanned(pattern).escaped,
        !scanned(pattern).in_class,
        !scanned(pattern).in_bounds,
    ensures
        ({
            let before = scanned(pattern);
            let after = scanned(pattern.push('\\').push(c));
            &&& !after.escaped && !after.in_class && !after.in_bounds
            &&& after.groups.len() == scanned(pattern.push('a')).groups.len()
            &&& after == scanned(pattern.push('a'))
            &&& after.deepest == before.deepest
            &&& after.largest_bound == before.largest_bound
        }),
{
    reveal_with_fuel(scanned, 3);
    let escape = pattern.push('\\');
    assert(escape.push(c).drop_last() =~= escape);
    assert(escape.drop_last() =~= pattern);
    assert(pattern.push('a').drop_last() =~= pattern);
}

/// What stands in a character class opens and closes no group either, up to the `]`.
pub proof fn characters_of_a_class_open_no_group(pattern: Seq<char>, c: char)
    requires
        scanned(pattern).in_class,
    ensures
        scanned(pattern.push(c)).groups == scanned(pattern).groups,
        scanned(pattern.push(c)).deepest == scanned(pattern).deepest,
        scanned(pattern.push(c)).largest_bound == scanned(pattern).largest_bound,
        scanned(pattern.push(c)).in_class == (scanned(pattern).escaped || c != ']'),
        scanned(pattern.push(c)).escaped == (!scanned(pattern).escaped && c == '\\'),
{
    assert(pattern.push(c).drop_last() =~= pattern);
}

/// The number that decimal digits are.
pub open spec fn number_of(digits: Seq<char>) -> nat
    decreases digits.len(),
{
    if digits.len() == 0 {
        0
    } else {
        number_of(digits.drop_last()) * 10 + (digits.last() as nat - '0' as nat) as nat
    }
}

proof fn lemma_bound(pattern: Seq<char>, digits: Seq<char>)
    requires
        scanned(pattern).in_bounds,
        !scanned(pattern).escaped,
        !scanned(pattern).in_class,
        scanned(pattern).bound == 0,
        forall|i: int| 0 <= i < digits.len() ==> '0' <= #[trigger] digits[i] <= '9',
    ensures
        ({
            let scan = scanned(pattern + digits);
            &&& scan.in_bounds && !scan.escaped && !scan.in_class
            &&& scan.groups == scanned(pattern).groups
            &&& scan.bound == number_of(digits) || 0xffff_ffff < scan.bound <= number_of(digits)
            &&& digits.len() > 0 ==> scan.bound <= scan.largest_bound && scan.bound <= scan.count
        }),
    decreases digits.len(),
{
    let all = pattern + digits;
    if digits.len() == 0 {
        assert(all =~= pattern);
    } else {
        let front = digits.drop_last();
        assert(all.drop_last() =~= pattern + front);
        assert forall|i: int| 0 <= i < front.len() implies '0' <= #[trigger] front[i] <= '9' by {
            assert(front[i] == digits[i]);
        }
        lemma_bound(pattern, front);
        let c = digits.last();
        assert(c == digits[digits.len() - 1]);
        assert(all.last() == c);
    }
}

/// The bounds of a repetition are read as decimal numbers; one above the largest `u32` makes a glob
/// immoderate, whatever follows.
pub proof fn bounds_are_decimal_numbers(pattern: Seq<char>, digits: Seq<char>, more: Seq<char>)
    requires
        scanned(pattern).in_bounds,
        !scanned(pattern).escaped,
        !scanned(pattern).in_class,
        scanned(pattern).bound == 0,
        digits.len() > 0,
        forall|i: int| 0 <= i < digits.len() ==> '0' <= #[trigger] digits[i] <= '9',
    ensures
        number_of(digits) <= 0xffff_ffff ==> scanned(pattern + digits).bound == number_of(digits)
            && largest_bound(pattern + digits) >= number_of(digits) && scanned(
            pattern + digits,
        ).count >= number_of(digits),
        number_of(digits) > 0xffff_ffff ==> !is_moderate(pattern + digits + more),
{
    lemma_bound(pattern, digits);
    reading_on_forgets_no_depth(pattern + digits, more);
}

/// A repetition repeats what is in it as often as it says, and what is repeated in it as often as
/// the counts come to together; a choice repeats nothing.
pub proof fn repetitions_multiply(outer: GroupScan, inner: GroupScan, count: nat)
    requires
        1 <= inner.times <= usize::MAX,
        count >= 1,
    ensures
        outer.times <= outer.with_group(inner, count).times,
        !inner.repeats ==> outer.with_group(inner, count).times == outer.times || outer.with_group(
            inner,
            count,
        ).times == inner.times,
        inner.repeats && inner.times * count <= usize::MAX ==> outer.with_group(inner, count).times
            >= inner.times * count,
        inner.repeats && inner.times * count > usize::MAX ==> outer.with_group(inner, count).times
            > usize::MAX,
{
    if count == 1 {
        assert(inner.times * count == inner.times) by (nonlinear_arith)
            requires
                count == 1,
        ;
    }
}

/// A repetition of more than one thing, one of them a group, in which others are nested is one more
/// of them; a repetition of a single group, and a choice, are not.
pub proof fn repetitions_of_several_things_are_counted(
    outer: GroupScan,
    inner: GroupScan,
    count: nat,
)
    ensures
        ({
            let nested = if inner.repeats && inner.groups > 0 && (inner.groups > 1 || inner.other) {
                inner.work + 1
            } else {
                inner.work
            };
            &&& outer.with_group(inner, count).work >= nested
            &&& outer.with_group(inner, count).work >= outer.work
            &&& outer.with_group(inner, count).work == nested || outer.with_group(inner, count).work
                == outer.work
        }),
{
}

/// A branch that is a group and nothing else has the levels of the group.  A branch of several
/// things has one more than the deepest of them; wildcards, classes and separators have seven.
pub proof fn branch_is_as_deep_as_what_it_holds(group: GroupScan)
    ensures
        group.groups == 1 && !group.other ==> group.present_levels() == group.group_levels,
        group.groups != 1 || group.other ==> {
            &&& group.present_levels() > group.group_levels
            &&& group.symbol ==> group.present_levels() >= 8
            &&& group.present_levels() == group.group_levels + 1 || (group.symbol
                && group.present_levels() == 8)
        },
        group.levels() > group.present_levels(),
        group.levels() > group.branch_levels,
        group.levels() == group.present_levels() + (if group.repeats || group.branches {
            3nat
        } else {
            2nat
        }) || group.levels() == group.branch_levels + (if group.repeats || group.branches {
            3nat
        } else {
            2nat
        }),
{
}

} // verus!

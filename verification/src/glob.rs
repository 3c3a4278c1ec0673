//! How deep a glob nests, and how often it repeats things.

use vstd::prelude::*;

verus! {

/// How many levels a regular expression may have.
pub const MAX_LEVELS: u128 = 250;

/// How many levels a regular expression has around those of a single glob.
pub const OUTER_LEVELS: u128 = 4;

/// How many levels a wildcard, a class or a separator has at most.
pub const SYMBOL_LEVELS: u128 = 7;

/// How many groups may be open at once: each has two levels at least.
pub const MAX_GROUPS: usize = 123;

/// How many repetitions of more than one thing may stand one in another.
pub const MAX_WORK: usize = 12;

pub open spec fn opens_group(c: char) -> bool {
    c == '{' || c == '<'
}

pub open spec fn closes_group(c: char) -> bool {
    c == '}' || c == '>'
}

/// Whether a character is, or begins, a wildcard, a class or a separator.
pub open spec fn is_symbol(c: char) -> bool {
    c == '/' || c == '?' || c == '*' || c == '$' || c == '['
}

pub open spec fn is_digit(c: char) -> bool {
    '0' <= c <= '9'
}

pub open spec fn larger(a: nat, b: nat) -> nat {
    if a < b {
        b
    } else {
        a
    }
}

/// A bound with one more digit.  Bounds above the largest `u32` are not told apart.
pub open spec fn with_digit(bound: nat, c: char) -> nat {
    if bound > u32::MAX {
        bound
    } else {
        bound * 10 + (c as nat - '0' as nat) as nat
    }
}

/// How often something is repeated that a repetition repeats `times` times, and another one around
/// it `count` times.  Numbers above the largest `usize` are not told apart.
pub open spec fn repeated(times: nat, count: nat) -> nat {
    if count <= 1 {
        times
    } else if times * count > usize::MAX {
        usize::MAX as nat + 1
    } else {
        times * count
    }
}

/// No bound that is read comes to more.
const BOUND_LIMIT: u64 = 0x100_0000_0000;

/// What is known of the glob, or of a group that is open.
pub struct GroupScan {
    pub repeats: bool,
    /// Whether it has more than one branch.
    pub branches: bool,
    /// The most levels of a branch that is complete.
    pub branch_levels: nat,
    /// How many groups the present branch holds.
    pub groups: nat,
    /// The most levels of such a group.
    pub group_levels: nat,
    /// Whether the present branch holds anything else.
    pub other: bool,
    /// Whether it holds a wildcard, a class or a separator.
    pub symbol: bool,
    /// How many repetitions of more than one thing stand one in another in it, at most.
    pub work: nat,
    /// How often the repetitions in it repeat something, at most.
    pub times: nat,
}

impl GroupScan {
    pub open spec fn start(repeats: bool) -> GroupScan {
        GroupScan {
            repeats,
            branches: false,
            branch_levels: 0,
            groups: 0,
            group_levels: 0,
            other: false,
            symbol: false,
            work: 0,
            times: 1,
        }
    }

    /// Whether the present branch is a group and nothing else.
    pub open spec fn is_group(self) -> bool {
        self.groups == 1 && !self.other
    }

    /// How many levels the present branch has: one for the sequence, where it is one, and those of
    /// what it holds.
    pub open spec fn present_levels(self) -> nat {
        if self.is_group() {
            self.group_levels
        } else if self.symbol {
            1 + larger(SYMBOL_LEVELS as nat, self.group_levels)
        } else {
            1 + self.group_levels
        }
    }

    /// How many levels the group has: one around it, one for each branch, one for the choice or
    /// the repetition, and those of its branches.
    pub open spec fn levels(self) -> nat {
        larger(self.branch_levels, self.present_levels()) + if self.repeats || self.branches {
            3nat
        } else {
            2nat
        }
    }

    /// Something that is no group is in the present branch.
    pub open spec fn with_other(self, c: char) -> GroupScan {
        GroupScan { other: true, symbol: self.symbol || is_symbol(c), ..self }
    }

    /// The present branch is complete, and another one begins.
    pub open spec fn next_branch(self) -> GroupScan {
        GroupScan {
            branches: true,
            branch_levels: larger(self.branch_levels, self.present_levels()),
            groups: 0,
            group_levels: 0,
            other: false,
            symbol: false,
            ..self
        }
    }

    /// How many repetitions of more than one thing stand one in another, with the group itself.
    pub open spec fn whole_work(self) -> nat {
        if self.repeats && self.groups > 0 && !self.is_group() {
            self.work + 1
        } else {
            self.work
        }
    }

    /// A group is in the present branch, which is repeated `count` times where it is a repetition.
    pub open spec fn with_group(self, inner: GroupScan, count: nat) -> GroupScan {
        let times = if inner.repeats {
            repeated(inner.times, count)
        } else {
            inner.times
        };
        GroupScan {
            groups: self.groups + 1,
            group_levels: larger(self.group_levels, inner.levels()),
            work: larger(self.work, inner.whole_work()),
            times: larger(self.times, times),
            ..self
        }
    }
}

/// What is known of a glob that is read up to some character.
pub struct GlobScan {
    /// Whether the next character is escaped.
    pub escaped: bool,
    /// Whether a character class is open.
    pub in_class: bool,
    /// Whether the bounds of a repetition are being read.
    pub in_bounds: bool,
    /// The bound that is being read.
    pub bound: nat,
    /// The larger one of the bounds of the present repetition.
    pub count: nat,
    /// The largest bound.
    pub largest_bound: nat,
    /// The glob, and the groups that are open, from the outside in.
    pub groups: Seq<GroupScan>,
    /// The most groups that were open at once.
    pub deepest: nat,
}

impl GlobScan {
    /// Nothing is read yet.
    pub open spec fn start() -> GlobScan {
        GlobScan {
            escaped: false,
            in_class: false,
            in_bounds: false,
            bound: 0,
            count: 0,
            largest_bound: 0,
            groups: seq![GroupScan::start(false)],
            deepest: 0,
        }
    }

    pub open spec fn with_innermost(self, group: GroupScan) -> GlobScan {
        GlobScan { groups: self.groups.drop_last().push(group), ..self }
    }

    pub open spec fn opened(self, repeats: bool) -> GlobScan {
        GlobScan {
            groups: self.groups.push(GroupScan::start(repeats)),
            deepest: larger(self.deepest, self.groups.len()),
            ..self
        }
    }

    /// The innermost group is closed.
    pub open spec fn closed(self) -> GlobScan {
        if self.groups.len() < 2 {
            self
        } else {
            let outer = self.groups.drop_last();
            GlobScan {
                in_bounds: false,
                bound: 0,
                count: 0,
                groups: outer.drop_last().push(
                    outer.last().with_group(self.groups.last(), self.count),
                ),
                ..self
            }
        }
    }

    /// A character of the bounds of a repetition is read.
    pub open spec fn bounded(self, c: char) -> GlobScan {
        if is_digit(c) {
            let bound = with_digit(self.bound, c);
            GlobScan {
                bound,
                count: larger(self.count, bound),
                largest_bound: larger(self.largest_bound, bound),
                ..self
            }
        } else {
            GlobScan { bound: 0, ..self }
        }
    }

    /// One more character is read.
    pub open spec fn next(self, c: char) -> GlobScan {
        if self.escaped {
            GlobScan { escaped: false, ..self }
        } else if self.in_class {
            GlobScan { escaped: c == '\\', in_class: c != ']', ..self }
        } else if opens_group(c) {
            self.opened(c == '<')
        } else if closes_group(c) {
            self.closed()
        } else if self.in_bounds {
            self.bounded(c)
        } else if c == ':' {
            GlobScan { in_bounds: true, ..self }
        } else if c == ',' {
            self.with_innermost(self.groups.last().next_branch())
        } else {
            GlobScan {
                escaped: c == '\\',
                in_class: c == '[',
                ..self.with_innermost(self.groups.last().with_other(c))
            }
        }
    }
}

/// What is known of a glob when all of it is read.
pub open spec fn scanned(pattern: Seq<char>) -> GlobScan
    decreases pattern.len(),
{
    if pattern.len() == 0 {
        GlobScan::start()
    } else {
        scanned(pattern.drop_last()).next(pattern.last())
    }
}

/// How many levels the regular expression for a glob has.
pub open spec fn level_count(pattern: Seq<char>) -> nat {
    OUTER_LEVELS as nat + scanned(pattern).groups[0].present_levels()
}

/// How many groups of a glob are open at once.
pub open spec fn group_depth(pattern: Seq<char>) -> nat {
    scanned(pattern).deepest
}

/// How many repetitions of more than one thing stand one in another in a glob.
pub open spec fn work_depth(pattern: Seq<char>) -> nat {
    scanned(pattern).groups[0].work
}

/// The largest bound of a repetition in a glob.
pub open spec fn largest_bound(pattern: Seq<char>) -> nat {
    scanned(pattern).largest_bound
}

/// How often the repetitions of a glob repeat something.
pub open spec fn repeat_count(pattern: Seq<char>) -> nat {
    scanned(pattern).groups[0].times
}

/// Whether a program for a glob can be worked out: it nests no deeper than regular expressions may,
/// its counts are numbers, its text has a size when it is repeated, with four bytes for each
/// character, and there are not too many repetitions of more than one thing in another.
pub open spec fn is_moderate(pattern: Seq<char>) -> bool {
    &&& level_count(pattern) <= MAX_LEVELS
    &&& group_depth(pattern) <= MAX_GROUPS
    &&& work_depth(pattern) <= MAX_WORK
    &&& largest_bound(pattern) <= u32::MAX
    &&& repeat_count(pattern) > 1 ==> repeat_count(pattern) * pattern.len() <= usize::MAX / 4
}

/// Whether every one of the globs is moderate.
pub open spec fn are_moderate(patterns: Seq<Seq<char>>) -> bool {
    forall|i: int| 0 <= i < patterns.len() ==> is_moderate(#[trigger] patterns[i])
}

fn larger_levels(a: u128, b: u128) -> (res: u128)
    ensures
        res == larger(a as nat, b as nat),
{
    if a < b {
        b
    } else {
        a
    }
}

/// The glob, or a group that is open.
struct Group {
    repeats: bool,
    branches: bool,
    branch_levels: u128,
    groups: usize,
    group_levels: u128,
    other: bool,
    symbol: bool,
    work: usize,
    times: u128,
}

impl Group {
    spec fn scan(self) -> GroupScan {
        GroupScan {
            repeats: self.repeats,
            branches: self.branches,
            branch_levels: self.branch_levels as nat,
            groups: self.groups as nat,
            group_levels: self.group_levels as nat,
            other: self.other,
            symbol: self.symbol,
            work: self.work as nat,
            times: self.times as nat,
        }
    }

    /// Whether nothing is larger than what `read` characters can make it.
    spec fn fits(self, read: int) -> bool {
        &&& self.branch_levels <= 16 * read
        &&& self.groups <= read
        &&& self.group_levels <= 16 * read
        &&& self.work <= read
        &&& 1 <= self.times <= usize::MAX + 1
    }

    fn start(repeats: bool) -> (group: Group)
        ensures
            group.scan() == GroupScan::start(repeats),
            group.fits(0),
    {
        Group {
            repeats,
            branches: false,
            branch_levels: 0,
            groups: 0,
            group_levels: 0,
            other: false,
            symbol: false,
            work: 0,
            times: 1,
        }
    }

    fn is_group(&self) -> (res: bool)
        ensures
            res == self.scan().is_group(),
    {
        self.groups == 1 && !self.other
    }

    fn present_levels(&self, Ghost(read): Ghost<int>) -> (res: u128)
        requires
            self.fits(read),
            read <= usize::MAX,
        ensures
            res == self.scan().present_levels(),
            res <= 16 * read + 8,
    {
        if self.is_group() {
            self.group_levels
        } else if self.symbol {
            1 + larger_levels(SYMBOL_LEVELS, self.group_levels)
        } else {
            1 + self.group_levels
        }
    }

    fn levels(&self, Ghost(read): Ghost<int>) -> (res: u128)
        requires
            self.fits(read),
            read <= usize::MAX,
        ensures
            res == self.scan().levels(),
            res <= 16 * read + 11,
    {
        let inner: u128 = larger_levels(self.branch_levels, self.present_levels(Ghost(read)));
        if self.repeats || self.branches {
            inner + 3
        } else {
            inner + 2
        }
    }

    fn add_other(&mut self, c: char)
        ensures
            final(self).scan() == old(self).scan().with_other(c),
            forall|read: int| old(self).fits(read) ==> final(self).fits(read + 1),
    {
        self.other = true;
        if c == '/' || c == '?' || c == '*' || c == '$' || c == '[' {
            self.symbol = true;
        }
    }

    fn next_branch(&mut self, Ghost(read): Ghost<int>)
        requires
            old(self).fits(read),
            read < usize::MAX,
        ensures
            final(self).scan() == old(self).scan().next_branch(),
            final(self).fits(read + 1),
    {
        let levels: u128 = self.present_levels(Ghost(read));
        self.branches = true;
        self.branch_levels = larger_levels(self.branch_levels, levels);
        self.groups = 0;
        self.group_levels = 0;
        self.other = false;
        self.symbol = false;
    }

    fn add_group(&mut self, inner: &Group, count: u64, Ghost(read): Ghost<int>)
        requires
            old(self).fits(read),
            inner.fits(read),
            count <= BOUND_LIMIT,
            read < usize::MAX,
        ensures
            final(self).scan() == old(self).scan().with_group(inner.scan(), count as nat),
            final(self).fits(read + 1),
    {
        let levels: u128 = inner.levels(Ghost(read));
        self.groups += 1;
        self.group_levels = larger_levels(self.group_levels, levels);
        let mut work: usize = inner.work;
        if inner.repeats && inner.groups > 0 && !inner.is_group() {
            work += 1;
        }
        if self.work < work {
            self.work = work;
        }
        let mut times: u128 = inner.times;
        if inner.repeats && count > 1 {
            let most: u128 = usize::MAX as u128;
            assert(times * count <= 0x1_0000_0000_0000_0000 * 0x100_0000_0000)
                by (nonlinear_arith)
                requires
                    0 <= times <= 0x1_0000_0000_0000_0000,
                    0 <= count <= 0x100_0000_0000,
            ;
            assert(times * count >= 1) by (nonlinear_arith)
                requires
                    times >= 1,
                    count >= 1,
            ;
            times = times * count as u128;
            if times > most {
                times = most + 1;
            }
        }
        self.times = larger_levels(self.times, times);
    }
}

/// A glob that is read up to some character.
struct Scanner {
    escaped: bool,
    in_class: bool,
    in_bounds: bool,
    bound: u64,
    count: u64,
    largest_bound: u64,
    groups: Vec<Group>,
    deepest: usize,
}

spec fn group_scans(groups: Seq<Group>) -> Seq<GroupScan> {
    groups.map_values(|group: Group| group.scan())
}

impl Scanner {
    spec fn scan(self) -> GlobScan {
        GlobScan {
            escaped: self.escaped,
            in_class: self.in_class,
            in_bounds: self.in_bounds,
            bound: self.bound as nat,
            count: self.count as nat,
            largest_bound: self.largest_bound as nat,
            groups: group_scans(self.groups@),
            deepest: self.deepest as nat,
        }
    }

    /// Whether nothing is larger than what `read` characters can make it.
    spec fn fits(self, read: int) -> bool {
        &&& 1 <= self.groups@.len() <= read + 1
        &&& self.bound <= BOUND_LIMIT
        &&& self.count <= BOUND_LIMIT
        &&& forall|i: int| 0 <= i < self.groups@.len() ==> (#[trigger] self.groups@[i]).fits(read)
    }

    fn start() -> (scanner: Scanner)
        ensures
            scanner.scan() == GlobScan::start(),
            scanner.fits(0),
    {
        let mut groups: Vec<Group> = Vec::new();
        groups.push(Group::start(false));
        let scanner = Scanner {
            escaped: false,
            in_class: false,
            in_bounds: false,
            bound: 0,
            count: 0,
            largest_bound: 0,
            groups,
            deepest: 0,
        };
        assert(scanner.scan().groups =~= GlobScan::start().groups);
        scanner
    }

    fn open_group(&mut self, repeats: bool, Ghost(read): Ghost<int>)
        requires
            old(self).fits(read),
            read < usize::MAX,
        ensures
            final(self).scan() == old(self).scan().opened(repeats),
            final(self).fits(read + 1),
    {
        if self.deepest < self.groups.len() {
            self.deepest = self.groups.len();
        }
        self.groups.push(Group::start(repeats));
        assert(self.scan().groups =~= old(self).scan().opened(repeats).groups);
        assert forall|i: int| 0 <= i < self.groups@.len() implies (
        #[trigger] self.groups@[i]).fits(read + 1) by {
            if i < old(self).groups@.len() {
                assert(old(self).groups@[i].fits(read));
            }
        }
    }

    fn close_group(&mut self, Ghost(read): Ghost<int>)
        requires
            old(self).fits(read),
            read < usize::MAX,
        ensures
            final(self).scan() == old(self).scan().closed(),
            final(self).fits(read + 1),
    {
        if self.groups.len() >= 2 {
            let outer: usize = self.groups.len() - 2;
            assert(self.groups@[outer as int].fits(read));
            assert(self.groups@[outer + 1].fits(read));
            match self.groups.pop() {
                Some(inner) => {
                    self.groups[outer].add_group(&inner, self.count, Ghost(read));
                },
                None => {},
            }
            self.in_bounds = false;
            self.bound = 0;
            self.count = 0;
            assert(self.scan().groups =~= old(self).scan().closed().groups);
        }
        assert forall|i: int| 0 <= i < self.groups@.len() implies (
        #[trigger] self.groups@[i]).fits(read + 1) by {
            assert(old(self).groups@[i].fits(read));
        }
    }

    fn read_bound(&mut self, c: char)
        ensures
            final(self).scan() == old(self).scan().bounded(c),
            forall|read: int| old(self).fits(read) ==> final(self).fits(read + 1),
    {
        if '0' <= c && c <= '9' {
            if self.bound <= u32::MAX as u64 {
                self.bound = self.bound * 10 + (c as u64 - '0' as u64);
            }
            if self.count < self.bound {
                self.count = self.bound;
            }
            if self.largest_bound < self.bound {
                self.largest_bound = self.bound;
            }
        } else {
            self.bound = 0;
        }
        assert forall|read: int, i: int|
            old(self).fits(read) && 0 <= i < self.groups@.len() implies (
        #[trigger] self.groups@[i]).fits(#[trigger] (read + 1)) by {
            assert(old(self).groups@[i].fits(read));
        }
    }

    fn read(&mut self, c: char, Ghost(read): Ghost<int>)
        requires
            old(self).fits(read),
            read < usize::MAX,
        ensures
            final(self).scan() == old(self).scan().next(c),
            final(self).fits(read + 1),
    {
        let last: usize = self.groups.len() - 1;
        if self.escaped {
            self.escaped = false;
        } else if self.in_class {
            self.escaped = c == '\\';
            self.in_class = c != ']';
        } else if c == '{' || c == '<' {
            self.open_group(c == '<', Ghost(read));
        } else if c == '}' || c == '>' {
            self.close_group(Ghost(read));
        } else if self.in_bounds {
            self.read_bound(c);
        } else if c == ':' {
            self.in_bounds = true;
        } else if c == ',' {
            assert(self.groups@[last as int].fits(read));
            self.groups[last].next_branch(Ghost(read));
            assert(self.scan().groups =~= old(self).scan().next(c).groups);
        } else {
            assert(self.groups@[last as int].fits(read));
            self.groups[last].add_other(c);
            self.escaped = c == '\\';
            self.in_class = c == '[';
            assert(self.scan().groups =~= old(self).scan().next(c).groups);
        }
        assert forall|i: int| 0 <= i < self.groups@.len() implies (
        #[trigger] self.groups@[i]).fits(read + 1) by {
            if i < old(self).groups@.len() {
                assert(old(self).groups@[i].fits(read));
            }
        }
    }
}

pub fn is_moderate_pattern(pattern: &str) -> (res: bool)
    ensures
        res == is_moderate(pattern@),
{
    let len: usize = pattern.unicode_len();
    let mut scanner = Scanner::start();
    let mut i: usize = 0;
    while i < len
        invariant
            i <= len,
            len == pattern@.len(),
            scanner.scan() == scanned(pattern@.take(i as int)),
            scanner.fits(i as int),
        decreases len - i,
    {
        let c = pattern.get_char(i);
        proof {
            let after = pattern@.take(i + 1);
            assert(after.drop_last() =~= pattern@.take(i as int));
            assert(after.last() == c);
        }
        scanner.read(c, Ghost(i as int));
        i += 1;
    }
    assert(pattern@.take(len as int) =~= pattern@);
    let glob = &scanner.groups[0];
    assert(glob.fits(len as int));
    assert(glob.scan() == scanned(pattern@).groups[0]);
    let levels: u128 = OUTER_LEVELS + glob.present_levels(Ghost(len as int));
    let times: u128 = glob.times;
    assert(times * len <= 0x1_0000_0000_0000_0000 * 0xffff_ffff_ffff_ffff) by (nonlinear_arith)
        requires
            0 <= times <= 0x1_0000_0000_0000_0000,
            0 <= len <= 0xffff_ffff_ffff_ffff,
    ;
    let has_size = times <= 1 || times * len as u128 <= (usize::MAX / 4) as u128;
    levels <= MAX_LEVELS && scanner.deepest <= MAX_GROUPS && glob.work <= MAX_WORK
        && scanner.largest_bound <= u32::MAX as u64 && has_size
}

} // verus!

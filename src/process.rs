use vstd::prelude::*;

verus! {

pub open spec fn is_blank(b: u8) -> bool {
    b == 32 || b == 9 || b == 10 || b == 11 || b == 12 || b == 13
}

/// The first position at or after `i` that is not white space.
pub open spec fn skip_blanks(s: Seq<u8>, i: nat) -> nat
    decreases s.len() - i,
{
    if i < s.len() && is_blank(s[i as int]) {
        skip_blanks(s, i + 1)
    } else {
        i
    }
}

/// The first position at or after `i` that is white space.
pub open spec fn word_end(s: Seq<u8>, i: nat) -> nat
    decreases s.len() - i,
{
    if i < s.len() && !is_blank(s[i as int]) {
        word_end(s, i + 1)
    } else {
        i
    }
}

proof fn lemma_skip_blanks_bounds(s: Seq<u8>, i: nat)
    ensures
        i <= skip_blanks(s, i),
        i <= s.len() ==> skip_blanks(s, i) <= s.len(),
        skip_blanks(s, i) < s.len() ==> !is_blank(s[skip_blanks(s, i) as int]),
    decreases s.len() - i,
{
    if i < s.len() && is_blank(s[i as int]) {
        lemma_skip_blanks_bounds(s, i + 1);
    }
}

proof fn lemma_word_end_bounds(s: Seq<u8>, i: nat)
    ensures
        i <= word_end(s, i),
        i <= s.len() ==> word_end(s, i) <= s.len(),
    decreases s.len() - i,
{
    if i < s.len() && !is_blank(s[i as int]) {
        lemma_word_end_bounds(s, i + 1);
    }
}

/// The words of `s` from position `i` on, separated by white space.
pub open spec fn words_from(s: Seq<u8>, i: nat) -> Seq<Seq<u8>>
    decreases s.len() + 1 - i,
    via words_from_decreases
{
    let a = skip_blanks(s, i);
    if a >= s.len() {
        Seq::empty()
    } else {
        let e = word_end(s, a);
        seq![s.subrange(a as int, e as int)] + words_from(s, e)
    }
}

#[via_fn]
proof fn words_from_decreases(s: Seq<u8>, i: nat) {
    lemma_skip_blanks_bounds(s, i);
    let a = skip_blanks(s, i);
    if a < s.len() {
        lemma_word_end_bounds(s, a + 1);
        assert(word_end(s, a) == word_end(s, a + 1));
    }
}

pub open spec fn is_digit(b: u8) -> bool {
    48 <= b <= 57
}

/// The number written by a run of decimal digits.
pub open spec fn digits_value(d: Seq<u8>) -> nat
    decreases d.len(),
{
    if d.len() == 0 {
        0
    } else {
        digits_value(d.drop_last()) * 10 + (d.last() - 48) as nat
    }
}

pub open spec fn all_digits(d: Seq<u8>) -> bool {
    forall|i: int| 0 <= i < d.len() ==> is_digit(#[trigger] d[i])
}

/// `t` without a leading sign.
pub open spec fn unsigned_part(t: Seq<u8>) -> Seq<u8> {
    if t.len() > 0 && (t[0] == 45 || t[0] == 43) {
        t.skip(1)
    } else {
        t
    }
}

/// A decimal integer with an optional sign, as `i32` reads it from text.
pub open spec fn parse_i32(t: Seq<u8>) -> Option<i32> {
    let neg = t.len() > 0 && t[0] == 45;
    let d = unsigned_part(t);
    if d.len() == 0 || !all_digits(d) {
        None
    } else {
        let v: int = if neg {
            -(digits_value(d) as int)
        } else {
            digits_value(d) as int
        };
        if i32::MIN <= v <= i32::MAX {
            Some(v as i32)
        } else {
            None
        }
    }
}

proof fn lemma_digits_value_grows(d: Seq<u8>, k: int)
    requires
        0 <= k <= d.len(),
        all_digits(d),
    ensures
        digits_value(d.take(k)) <= digits_value(d),
    decreases d.len() - k,
{
    if k < d.len() {
        let e = d.drop_last();
        assert(e.take(k) =~= d.take(k));
        lemma_digits_value_grows(e, k);
        assert(d.take(d.len() as int) =~= d);
    } else {
        assert(d.take(k) =~= d);
    }
}

/// Reads a decimal `i32` from `t[lo..hi]`.
pub fn parse_i32_exec(t: &[u8], lo: usize, hi: usize) -> (r: Option<i32>)
    requires
        lo <= hi <= t@.len(),
    ensures
        r == parse_i32(t@.subrange(lo as int, hi as int)),
{
    let ghost w = t@.subrange(lo as int, hi as int);
    let neg = lo < hi && t[lo] == 45;
    let signed = lo < hi && (t[lo] == 45 || t[lo] == 43);
    let start = if signed {
        lo + 1
    } else {
        lo
    };
    let ghost d = t@.subrange(start as int, hi as int);
    assert(d =~= unsigned_part(w));
    if start == hi {
        return None;
    }
    let limit: u64 = if neg {
        2147483648
    } else {
        2147483647
    };
    let mut acc: u64 = 0;
    let mut k = start;
    while k < hi
        invariant
            lo <= start <= k <= hi <= t@.len(),
            start < hi,
            w == t@.subrange(lo as int, hi as int),
            neg == (w.len() > 0 && w[0] == 45),
            signed == (w.len() > 0 && (w[0] == 45 || w[0] == 43)),
            d == unsigned_part(w),
            limit == (if neg { 2147483648u64 } else { 2147483647u64 }),
            d == t@.subrange(start as int, hi as int),
            forall|i: int| 0 <= i < k - start ==> is_digit(d[i]),
            acc == digits_value(d.take(k - start)),
            acc <= limit,
            limit <= 2147483648,
        decreases hi - k,
    {
        let b = t[k];
        if b < 48 || b > 57 {
            assert(parse_i32(w) is None) by {
                assert(unsigned_part(w) == d);
                assert(!is_digit(d[k - start]));
            }
            return None;
        }
        assert(d.take(k - start + 1).drop_last() =~= d.take(k - start));
        assert(d.take(k - start + 1).last() == b);
        let next = acc * 10 + (b - 48) as u64;
        k = k + 1;
        assert(next == digits_value(d.take(k - start)));
        if next > limit {
            assert(parse_i32(w) is None) by {
                assert(unsigned_part(w) == d);
                if all_digits(d) {
                    lemma_digits_value_grows(d, k - start);
                    assert(digits_value(d) > limit);
                }
            }
            return None;
        }
        acc = next;
    }
    assert(d.take(hi - start) =~= d);
    if neg {
        Some((0 - acc as i64) as i32)
    } else {
        Some(acc as i32)
    }
}


fn skip_blanks_exec(s: &[u8], i: usize) -> (r: usize)
    requires
        i <= s@.len(),
    ensures
        r == skip_blanks(s@, i as nat),
{
    let mut k = i;
    while k < s.len() && (s[k] == 32 || s[k] == 9 || s[k] == 10 || s[k] == 11 || s[k] == 12 || s[k] == 13)
        invariant
            i <= k <= s@.len(),
            skip_blanks(s@, i as nat) == skip_blanks(s@, k as nat),
        decreases s@.len() - k,
    {
        k = k + 1;
    }
    k
}

fn word_end_exec(s: &[u8], i: usize) -> (r: usize)
    requires
        i <= s@.len(),
    ensures
        r == word_end(s@, i as nat),
{
    let mut k = i;
    while k < s.len() && !(s[k] == 32 || s[k] == 9 || s[k] == 10 || s[k] == 11 || s[k] == 12 || s[k] == 13)
        invariant
            i <= k <= s@.len(),
            word_end(s@, i as nat) == word_end(s@, k as nat),
        decreases s@.len() - k,
    {
        k = k + 1;
    }
    k
}

/// The position of word `n` of `s`, counting from zero.
fn nth_word(s: &[u8], n: usize) -> (r: Option<(usize, usize)>)
    ensures
        match r {
            Some((a, e)) => n < words_from(s@, 0).len() && a <= e <= s@.len() && s@.subrange(a as int, e as int)
                == words_from(s@, 0)[n as int],
            None => n >= words_from(s@, 0).len(),
        },
{
    let ghost all = words_from(s@, 0);
    let mut pos: usize = 0;
    let mut count: usize = 0;
    assert(all.skip(0) =~= all);
    loop
        invariant
            pos <= s@.len(),
            count <= n,
            all == words_from(s@, 0),
            count <= all.len(),
            all.skip(count as int) == words_from(s@, pos as nat),
        decreases s@.len() + 1 - pos,
    {
        let a = skip_blanks_exec(s, pos);
        proof {
            lemma_skip_blanks_bounds(s@, pos as nat);
        }
        if a >= s.len() {
            assert(words_from(s@, pos as nat) =~= Seq::<Seq<u8>>::empty());
            assert(all.skip(count as int).len() == 0);
            return None;
        }
        let e = word_end_exec(s, a);
        proof {
            lemma_word_end_bounds(s@, a as nat);
            lemma_word_end_bounds(s@, (a + 1) as nat);
            assert(word_end(s@, a as nat) == word_end(s@, (a + 1) as nat));
            let w = s@.subrange(a as int, e as int);
            assert(words_from(s@, pos as nat) == seq![w] + words_from(s@, e as nat));
            assert(all.skip(count as int).len() >= 1);
            assert(count < all.len());
            assert(all.skip(count as int)[0] == all[count as int]);
            assert(all.skip(count as int + 1) =~= all.skip(count as int).drop_first());
            assert((seq![w] + words_from(s@, e as nat)).drop_first() =~= words_from(s@, e as nat));
        }
        if count == n {
            return Some((a, e));
        }
        count = count + 1;
        pos = e;
    }
}

/// A `(` at the start and a `)` at the end are not part of a process name.
pub open spec fn strip_open(t: Seq<u8>) -> Seq<u8>
    decreases t.len(),
{
    if t.len() > 0 && t[0] == 40 {
        strip_open(t.drop_first())
    } else {
        t
    }
}

pub open spec fn strip_close(t: Seq<u8>) -> Seq<u8>
    decreases t.len(),
{
    if t.len() > 0 && t.last() == 41 {
        strip_close(t.drop_last())
    } else {
        t
    }
}

pub open spec fn terminal_name() -> Seq<u8> {
    seq![107u8, 105, 116, 116, 121]
}

/// What one process status line tells of the walk up the process tree.
#[derive(Debug, Clone, Copy, PartialEq, Eq, Structural)]
pub enum StatStep {
    /// The process is the terminal.
    Found,
    /// The process is another one, with this parent.
    Parent(i32),
    /// The line says neither.
    Stop,
}

/// The second word is the process name, the fourth its parent's id.
pub open spec fn stat_step_of(s: Seq<u8>) -> StatStep {
    let w = words_from(s, 0);
    if w.len() > 1 {
        if strip_close(strip_open(w[1])) == terminal_name() {
            StatStep::Found
        } else if w.len() > 3 {
            match parse_i32(w[3]) {
                Some(p) => StatStep::Parent(p),
                None => StatStep::Stop,
            }
        } else {
            StatStep::Stop
        }
    } else {
        StatStep::Stop
    }
}

fn is_terminal_name(s: &[u8], lo: usize, hi: usize) -> (r: bool)
    requires
        lo <= hi <= s@.len(),
    ensures
        r == (strip_close(strip_open(s@.subrange(lo as int, hi as int))) == terminal_name()),
{
    let mut a = lo;
    while a < hi && s[a] == 40
        invariant
            lo <= a <= hi <= s@.len(),
            strip_open(s@.subrange(lo as int, hi as int)) == strip_open(s@.subrange(a as int, hi as int)),
        decreases hi - a,
    {
        assert(s@.subrange(a as int, hi as int).drop_first() =~= s@.subrange(a + 1, hi as int));
        a = a + 1;
    }
    let mut z = hi;
    while z > a && s[z - 1] == 41
        invariant
            lo <= a <= z <= hi <= s@.len(),
            strip_close(s@.subrange(a as int, hi as int)) == strip_close(s@.subrange(a as int, z as int)),
        decreases z - a,
    {
        assert(s@.subrange(a as int, z as int).drop_last() =~= s@.subrange(a as int, z - 1));
        z = z - 1;
    }
    let ghost core = s@.subrange(a as int, z as int);
    proof {
        let rest = s@.subrange(a as int, hi as int);
        assert(rest.len() == 0 || rest[0] != 40);
        assert(strip_open(rest) == rest);
        assert(core.len() == 0 || core.last() != 41);
        assert(strip_close(core) == core);
    }
    if z - a != 5 {
        return false;
    }
    let name: [u8; 5] = [107u8, 105, 116, 116, 121];
    let mut k: usize = 0;
    while k < 5
        invariant
            a + 5 == z <= s@.len(),
            core == s@.subrange(a as int, z as int),
            strip_close(strip_open(s@.subrange(lo as int, hi as int))) == core,
            name@ == terminal_name(),
            k <= 5,
            forall|j: int| 0 <= j < k ==> core[j] == terminal_name()[j],
        decreases 5 - k,
    {
        if s[a + k] != name[k] {
            assert(core[k as int] != terminal_name()[k as int]);
            return false;
        }
        k = k + 1;
    }
    assert(core =~= terminal_name());
    true
}

/// Reads one line of a process status file.
pub fn stat_step(stat: &[u8]) -> (r: StatStep)
    ensures
        r == stat_step_of(stat@),
{
    let (a, e) = match nth_word(stat, 1) {
        Some(r) => r,
        None => return StatStep::Stop,
    };
    if is_terminal_name(stat, a, e) {
        return StatStep::Found;
    }
    let (x, y) = match nth_word(stat, 3) {
        Some(r) => r,
        None => return StatStep::Stop,
    };
    match parse_i32_exec(stat, x, y) {
        Some(p) => StatStep::Parent(p),
        None => StatStep::Stop,
    }
}

/// How many status files the walk up the process tree reads at most.
pub const MAX_ANCESTRY_DEPTH: u32 = 20;

/// What the caller of an [`AncestryWalk`] is to do next.
#[derive(Debug, Clone, Copy, PartialEq, Eq, Structural)]
pub enum WalkAction {
    /// Read the status line of this process and report it.
    ReadStat(i32),
    /// The terminal process was found.
    Found(i32),
    /// No terminal process was found.
    NotFound,
}

/// The walk from a shell process up through its parents to the terminal
/// process that runs it.
pub struct AncestryWalk {
    pid: i32,
    reads: u32,
    outcome: Option<Option<i32>>,
}

impl AncestryWalk {
    pub closed spec fn pid_spec(&self) -> i32 {
        self.pid
    }

    pub closed spec fn reads_spec(&self) -> u32 {
        self.reads
    }

    pub closed spec fn outcome_spec(&self) -> Option<Option<i32>> {
        self.outcome
    }

    pub open spec fn well_formed(&self) -> bool {
        &&& self.reads_spec() <= MAX_ANCESTRY_DEPTH
        &&& self.outcome_spec() is None ==> self.reads_spec() < MAX_ANCESTRY_DEPTH
    }

    pub fn new(shell_pid: i32) -> (r: Self)
        ensures
            r.well_formed(),
            r.pid_spec() == shell_pid,
            r.reads_spec() == 0,
            r.outcome_spec() is None,
    {
        AncestryWalk { pid: shell_pid, reads: 0, outcome: None }
    }

    pub fn next_action(&self) -> (r: WalkAction)
        ensures
            self.outcome_spec() is None ==> r == WalkAction::ReadStat(self.pid_spec()),
            self.outcome_spec() == Some(None::<i32>) ==> r == WalkAction::NotFound,
            self.outcome_spec() matches Some(Some(p)) ==> r == WalkAction::Found(p),
    {
        match self.outcome {
            None => WalkAction::ReadStat(self.pid),
            Some(None) => WalkAction::NotFound,
            Some(Some(p)) => WalkAction::Found(p),
        }
    }

    /// Reports the status line of the current process, or `None` when it
    /// could not be read. The walk moves to the parent, ends at the
    /// terminal, or gives up: on an unreadable or unexpected line, or once
    /// it has read as many lines as it may.
    pub fn on_stat(&mut self, stat: Option<&[u8]>)
        requires
            old(self).well_formed(),
            old(self).outcome_spec() is None,
        ensures
            final(self).well_formed(),
            final(self).reads_spec() == old(self).reads_spec() + 1,
            stat is None ==> final(self).outcome_spec() == Some(None::<i32>),
            stat matches Some(s) ==> match stat_step_of(s@) {
                StatStep::Found => final(self).outcome_spec() == Some(Some(old(self).pid_spec())),
                StatStep::Parent(p) => final(self).pid_spec() == p && if final(self).reads_spec()
                    == MAX_ANCESTRY_DEPTH {
                    final(self).outcome_spec() == Some(None::<i32>)
                } else {
                    final(self).outcome_spec() is None
                },
                StatStep::Stop => final(self).outcome_spec() == Some(None::<i32>),
            },
    {
        self.reads = self.reads + 1;
        match stat {
            None => {
                self.outcome = Some(None);
            },
            Some(s) => match stat_step(s) {
                StatStep::Found => {
                    self.outcome = Some(Some(self.pid));
                },
                StatStep::Parent(p) => {
                    self.pid = p;
                    if self.reads == MAX_ANCESTRY_DEPTH {
                        self.outcome = Some(None);
                    }
                },
                StatStep::Stop => {
                    self.outcome = Some(None);
                },
            },
        }
    }
}

/// The process id in the name of a terminal's control socket,
/// `kitty-<pid>.sock`.
pub open spec fn socket_name_pid_of(name: Seq<u8>) -> Option<i32> {
    if name.len() >= 11 && name.take(6) == seq![107u8, 105, 116, 116, 121, 45] && name.skip(name.len() - 5)
        == seq![46u8, 115, 111, 99, 107] {
        parse_i32(name.subrange(6, name.len() - 5))
    } else {
        None
    }
}

pub fn socket_name_pid(name: &[u8]) -> (r: Option<i32>)
    ensures
        r == socket_name_pid_of(name@),
{
    let n = name.len();
    if n < 11 {
        return None;
    }
    let prefix: [u8; 6] = [107u8, 105, 116, 116, 121, 45];
    let suffix: [u8; 5] = [46u8, 115, 111, 99, 107];
    let mut k: usize = 0;
    while k < 6
        invariant
            n == name@.len(),
            n >= 11,
            prefix@ == seq![107u8, 105, 116, 116, 121, 45],
            k <= 6,
            forall|j: int| 0 <= j < k ==> name@[j] == prefix@[j],
        decreases 6 - k,
    {
        if name[k] != prefix[k] {
            assert(name@.take(6)[k as int] != prefix@[k as int]);
            return None;
        }
        k = k + 1;
    }
    assert(name@.take(6) =~= prefix@);
    let mut k: usize = 0;
    while k < 5
        invariant
            n == name@.len(),
            n >= 11,
            suffix@ == seq![46u8, 115, 111, 99, 107],
            k <= 5,
            forall|j: int| 0 <= j < k ==> name@[n - 5 + j] == suffix@[j],
        decreases 5 - k,
    {
        if name[n - 5 + k] != suffix[k] {
            assert(name@.skip(n - 5)[k as int] != suffix@[k as int]);
            return None;
        }
        k = k + 1;
    }
    assert(name@.skip(n - 5) =~= suffix@);
    parse_i32_exec(name, 6, n - 5)
}

} // verus!

//! The registry of running node processes and the text file that keeps it
//! between runs: one line per entry, the port, whitespace, the process id.

use crate::text::{
    decimal, find_line_end, is_space, lemma_decimal, lemma_line_end_bounds, lemma_line_end_is,
    lemma_parse_decimal_of_decimal, lemma_tokens_valid, lemma_two_tokens, line_end, parse_decimal,
    push_char, push_decimal, read_u32, split_tokens, to_chars, to_string, tokens_in, valid_token,
};
use vstd::prelude::*;

verus! {

/// One running node: the port it serves and the id of its process.
#[derive(Debug, Clone, PartialEq, Eq, Hash)]
pub struct PIDEntry {
    pub port: String,
    pub pid: u32,
}

impl View for PIDEntry {
    type V = (Seq<char>, u32);

    open spec fn view(&self) -> (Seq<char>, u32) {
        (self.port@, self.pid)
    }
}

/// Whether some entry of `s` has process id `pid`.
pub open spec fn has_pid(s: Seq<(Seq<char>, u32)>, pid: u32) -> bool {
    exists|i: int| 0 <= i < s.len() && (#[trigger] s[i]).1 == pid
}

/// Whether no process id occurs twice in `s`.
pub open spec fn distinct_pids(s: Seq<(Seq<char>, u32)>) -> bool {
    forall|i: int, j: int| 0 <= i < j < s.len() ==> (#[trigger] s[i]).1 != (#[trigger] s[j]).1
}

/// `s` without the entries whose process id an earlier entry already has.
pub open spec fn first_by_pid(s: Seq<(Seq<char>, u32)>) -> Seq<(Seq<char>, u32)>
    decreases s.len(),
{
    if s.len() == 0 {
        Seq::empty()
    } else {
        let before = first_by_pid(s.drop_last());
        if has_pid(before, s.last().1) {
            before
        } else {
            before.push(s.last())
        }
    }
}

/// The set of running nodes, keyed by process id. Entries keep the order in
/// which they were added.
#[derive(Debug)]
pub struct PidSet {
    entries: Vec<PIDEntry>,
}

impl View for PidSet {
    type V = Seq<(Seq<char>, u32)>;

    closed spec fn view(&self) -> Seq<(Seq<char>, u32)> {
        Seq::new(self.entries@.len(), |i: int| self.entries@[i]@)
    }
}

impl PidSet {
    /// The invariant of the set: no process id occurs twice.
    pub open spec fn wf(&self) -> bool {
        distinct_pids(self@)
    }

    /// The empty set.
    pub fn new() -> (r: PidSet)
        ensures
            r@ == Seq::<(Seq<char>, u32)>::empty(),
            r.wf(),
    {
        let r = PidSet { entries: Vec::new() };
        assert(r@ =~= Seq::<(Seq<char>, u32)>::empty());
        r
    }

    /// The number of entries.
    pub fn len(&self) -> (n: usize)
        ensures
            n == self@.len(),
    {
        self.entries.len()
    }

    /// Whether the set holds no entry: no cluster is running.
    pub fn is_empty(&self) -> (b: bool)
        ensures
            b == (self@.len() == 0),
    {
        self.entries.len() == 0
    }

    /// The entry at position `i`, in insertion order.
    pub fn get(&self, i: usize) -> (e: &PIDEntry)
        requires
            i < self@.len(),
        ensures
            e@ == self@[i as int],
    {
        &self.entries[i]
    }

    /// The entry that was added first, if there is one.
    pub fn first(&self) -> (e: Option<&PIDEntry>)
        ensures
            self@.len() == 0 ==> e is None,
            self@.len() > 0 ==> e is Some && e->0@ == self@[0],
    {
        if self.entries.len() == 0 {
            None
        } else {
            Some(&self.entries[0])
        }
    }

    /// Whether an entry has process id `pid`.
    pub fn contains_pid(&self, pid: u32) -> (b: bool)
        ensures
            b == has_pid(self@, pid),
    {
        let mut i: usize = 0;
        while i < self.entries.len()
            invariant
                i <= self.entries.len(),
                forall|k: int| 0 <= k < i ==> (#[trigger] self@[k]).1 != pid,
            decreases self.entries.len() - i,
        {
            if self.entries[i].pid == pid {
                assert(self@[i as int].1 == pid);
                return true;
            }
            i = i + 1;
        }
        false
    }

    /// Adds `entry` unless its process id is already present; the result says
    /// whether it was added.
    pub fn insert(&mut self, entry: PIDEntry) -> (added: bool)
        requires
            old(self).wf(),
        ensures
            final(self).wf(),
            added == !has_pid(old(self)@, entry.pid),
            added ==> final(self)@ == old(self)@.push(entry@),
            !added ==> final(self)@ == old(self)@,
    {
        if self.contains_pid(entry.pid) {
            false
        } else {
            let ghost before = self@;
            self.entries.push(entry);
            assert(self@ =~= before.push(entry@));
            true
        }
    }
}

/// What a line's tokens mean: an entry where there are exactly two and the
/// second is a process id, nothing otherwise.
pub open spec fn line_entry(toks: Seq<Seq<char>>) -> Option<(Seq<char>, u32)> {
    if toks.len() == 2 {
        match parse_decimal(toks[1]) {
            Some(pid) => Some((toks[0], pid)),
            None => None,
        }
    } else {
        None
    }
}

/// The entries of the well-formed lines of `s` from position `i` on, in order.
pub open spec fn entries_from(s: Seq<char>, i: int) -> Seq<(Seq<char>, u32)>
    recommends
        0 <= i <= s.len(),
    decreases s.len() - i,
{
    if i >= s.len() {
        Seq::empty()
    } else {
        let j = line_end(s, i);
        let rest = if i <= j < s.len() {
            entries_from(s, j + 1)
        } else {
            Seq::empty()
        };
        match line_entry(tokens_in(s, i, j)) {
            Some(e) => seq![e] + rest,
            None => rest,
        }
    }
}

/// The registry that a PID file's text stands for: the entries of its
/// well-formed lines, the first one for each process id.
pub open spec fn pid_file_entries(s: Seq<char>) -> Seq<(Seq<char>, u32)> {
    first_by_pid(entries_from(s, 0))
}

/// The line of one entry: port, a space, the process id in base ten, a line feed.
pub open spec fn entry_line(e: (Seq<char>, u32)) -> Seq<char> {
    e.0 + seq![' '] + decimal(e.1 as nat) + seq!['\n']
}

/// The text of a PID file that holds the entries of `s`, in order.
pub open spec fn pid_file_text(s: Seq<(Seq<char>, u32)>) -> Seq<char>
    decreases s.len(),
{
    if s.len() == 0 {
        Seq::empty()
    } else {
        entry_line(s[0]) + pid_file_text(s.drop_first())
    }
}

/// Whether `p` can stand as a token: not empty, and free of whitespace.
pub open spec fn valid_port(p: Seq<char>) -> bool {
    valid_token(p)
}

/// Whether every port of `s` can stand as a token.
pub open spec fn valid_ports(s: Seq<(Seq<char>, u32)>) -> bool {
    forall|i: int| 0 <= i < s.len() ==> valid_port(#[trigger] s[i].0)
}

/// Parses the text of a PID file. Lines that do not hold exactly two tokens, or
/// whose second token is no process id, are passed over; of several lines with
/// one process id the first counts.
pub fn get_currently_running_pids(contents: &str) -> (r: PidSet)
    ensures
        r@ == pid_file_entries(contents@),
        r.wf(),
        valid_ports(r@),
{
    proof {
        lemma_entries_valid(contents@, 0);
        lemma_first_by_pid_valid(entries_from(contents@, 0));
    }
    let chars = to_chars(contents);
    let mut set = PidSet::new();
    let ghost mut raw: Seq<(Seq<char>, u32)> = Seq::empty();
    let mut i: usize = 0;
    assert(first_by_pid(raw) == raw);
    while i < chars.len()
        invariant
            i <= chars.len(),
            entries_from(chars@, 0) == raw + entries_from(chars@, i as int),
            set@ == first_by_pid(raw),
            set.wf(),
        decreases chars.len() - i,
    {
        let j: usize = find_line_end(&chars, i);
        let ghost rest = entries_from(chars@, j + 1);
        let toks = split_tokens(&chars, i, j);
        if toks.len() == 2 {
            match read_u32(&toks[1]) {
                Some(pid) => {
                    let entry = PIDEntry { port: to_string(&toks[0]), pid };
                    proof {
                        assert(line_entry(tokens_in(chars@, i as int, j as int)) == Some(entry@));
                        assert(raw + (seq![entry@] + rest) == raw.push(entry@) + rest);
                        assert(raw.push(entry@).drop_last() == raw);
                        raw = raw.push(entry@);
                    }
                    set.insert(entry);
                },
                None => {},
            }
        }
        i = if j < chars.len() {
            j + 1
        } else {
            j
        };
    }
    assert(raw + Seq::<(Seq<char>, u32)>::empty() == raw);
    set
}

/// Renders the text of a PID file: one line per entry, in the set's order.
pub fn write_data_to_pid_file(pid_set: &PidSet) -> (r: String)
    ensures
        r@ == pid_file_text(pid_set@),
{
    let mut out = String::new();
    let mut i: usize = 0;
    assert(pid_set@.skip(0) == pid_set@);
    while i < pid_set.len()
        invariant
            i <= pid_set@.len(),
            out@ + pid_file_text(pid_set@.skip(i as int)) == pid_file_text(pid_set@),
        decreases pid_set@.len() - i,
    {
        let entry = pid_set.get(i);
        let ghost before = out@;
        let ghost rest = pid_file_text(pid_set@.skip(i + 1));
        out.append(entry.port.as_str());
        push_char(&mut out, ' ');
        push_decimal(&mut out, entry.pid as u64);
        push_char(&mut out, '\n');
        proof {
            assert(pid_set@.skip(i as int).drop_first() == pid_set@.skip(i + 1));
            assert(pid_set@.skip(i as int)[0] == entry@);
            assert(out@ == before + entry_line(entry@));
            assert(before + (entry_line(entry@) + rest) == (before + entry_line(entry@)) + rest);
        }
        i = i + 1;
    }
    assert(out@ + Seq::<char>::empty() == out@);
    out
}

/// No process id occurs twice in `first_by_pid(s)`, and it holds the process ids
/// of `s` and no others.
pub proof fn lemma_first_by_pid_is_distinct(s: Seq<(Seq<char>, u32)>)
    ensures
        distinct_pids(first_by_pid(s)),
        first_by_pid(s).len() <= s.len(),
        s.len() > 0 ==> first_by_pid(s).len() > 0,
    decreases s.len(),
{
    if s.len() > 0 {
        lemma_first_by_pid_is_distinct(s.drop_last());
        let before = first_by_pid(s.drop_last());
        if !has_pid(before, s.last().1) {
            let after = before.push(s.last());
            assert forall|i: int, j: int| 0 <= i < j < after.len() implies (#[trigger] after[i]).1
                != (#[trigger] after[j]).1 by {
                if j == before.len() {
                    assert(before[i] == after[i]);
                } else {
                    assert(before[i] == after[i] && before[j] == after[j]);
                }
            }
        } else {
            let i = choose|i: int| 0 <= i < before.len() && (#[trigger] before[i]).1 == s.last().1;
        }
    }
}

/// A sequence without a repeated process id is its own `first_by_pid`.
pub proof fn lemma_first_by_pid_of_distinct(s: Seq<(Seq<char>, u32)>)
    requires
        distinct_pids(s),
    ensures
        first_by_pid(s) == s,
    decreases s.len(),
{
    if s.len() > 0 {
        let before = s.drop_last();
        assert(distinct_pids(before)) by {
            assert forall|i: int, j: int| 0 <= i < j < before.len() implies (#[trigger] before[i]).1
                != (#[trigger] before[j]).1 by {
                assert(before[i] == s[i] && before[j] == s[j]);
            }
        }
        lemma_first_by_pid_of_distinct(before);
        if has_pid(before, s.last().1) {
            let i = choose|i: int| 0 <= i < before.len() && (#[trigger] before[i]).1 == s.last().1;
            assert(before[i] == s[i]);
            assert(s[i].1 != s[s.len() - 1].1);
        }
        assert(before.push(s.last()) == s);
    } else {
        assert(s == Seq::<(Seq<char>, u32)>::empty());
    }
}

/// The tokens of one entry's line, wherever the line stands in a text: the port
/// and the process id's spelling.
proof fn lemma_tokens_of_entry_line(s: Seq<char>, a: int, e: (Seq<char>, u32))
    requires
        valid_port(e.0),
        0 <= a,
        a + entry_line(e).len() <= s.len(),
        s.subrange(a, a + entry_line(e).len()) == entry_line(e),
    ensures
        line_end(s, a) == a + entry_line(e).len() - 1,
        line_entry(tokens_in(s, a, a + entry_line(e).len() - 1)) == Some(e),
{
    let line = entry_line(e);
    let num = decimal(e.1 as nat);
    let p = a + e.0.len();
    let b = a + line.len() - 1;
    lemma_decimal(e.1 as nat);
    assert(b == p + 1 + num.len());
    assert forall|k: int| a <= k <= b implies s[k] == line[k - a] by {
        assert(s.subrange(a, a + line.len())[k - a] == s[k]);
    }
    assert forall|k: int| a <= k < p implies !is_space(#[trigger] s[k]) by {
        assert(s[k] == e.0[k - a]);
    }
    assert forall|k: int| p + 1 <= k < b implies !is_space(#[trigger] s[k]) by {
        assert(s[k] == num[k - p - 1]);
    }
    assert(s[p] == ' ');
    assert(s[b] == '\n');
    assert(line_end(s, a) == b) by {
        assert forall|k: int| a <= k < b implies #[trigger] s[k] != '\n' by {
            if k != p {
                assert(!is_space(s[k]));
            }
        }
        lemma_line_end_is(s, a, b);
    }
    assert(s.subrange(a, p) =~= e.0);
    assert(s.subrange(p + 1, b) =~= num);
    lemma_two_tokens(s, a, p, b);
    lemma_parse_decimal_of_decimal(e.1);
}

/// Reading a rendered registry from where it starts in a text gives its entries
/// back, line by line.
proof fn lemma_entries_of_text(prefix: Seq<char>, r: Seq<(Seq<char>, u32)>)
    requires
        valid_ports(r),
    ensures
        entries_from(prefix + pid_file_text(r), prefix.len() as int) == r,
    decreases r.len(),
{
    let s = prefix + pid_file_text(r);
    let a = prefix.len() as int;
    if r.len() == 0 {
        assert(entries_from(s, a) =~= r);
    } else {
        let e = r[0];
        let rest = r.drop_first();
        let line = entry_line(e);
        assert(valid_port(r[0].0));
        assert(s.subrange(a, a + line.len()) =~= line);
        lemma_tokens_of_entry_line(s, a, e);
        assert forall|i: int| 0 <= i < rest.len() implies valid_port(#[trigger] rest[i].0) by {
            assert(rest[i] == r[i + 1]);
        }
        lemma_entries_of_text(prefix + line, rest);
        assert(s =~= (prefix + line) + pid_file_text(rest));
        assert(entries_from(s, a) == seq![e] + entries_from(s, a + line.len()));
        assert(seq![e] + rest =~= r);
    }
}

/// Saving a registry and loading it again gives the same registry: parsing the
/// text rendered from entries with distinct process ids, each port a non-empty
/// token free of whitespace, yields those entries in their order.
pub proof fn lemma_pid_file_round_trip(r: Seq<(Seq<char>, u32)>)
    requires
        distinct_pids(r),
        valid_ports(r),
    ensures
        pid_file_entries(pid_file_text(r)) == r,
{
    lemma_entries_of_text(Seq::empty(), r);
    assert(Seq::<char>::empty() + pid_file_text(r) =~= pid_file_text(r));
    lemma_first_by_pid_of_distinct(r);
}

/// Every port that is read from a text is a valid token.
pub proof fn lemma_entries_valid(s: Seq<char>, i: int)
    requires
        0 <= i <= s.len(),
    ensures
        valid_ports(entries_from(s, i)),
    decreases s.len() - i,
{
    if i < s.len() {
        let j = line_end(s, i);
        lemma_line_end_bounds(s, i);
        lemma_tokens_valid(s, i, j);
        let rest = if j < s.len() {
            entries_from(s, j + 1)
        } else {
            Seq::empty()
        };
        if j < s.len() {
            lemma_entries_valid(s, j + 1);
        }
        match line_entry(tokens_in(s, i, j)) {
            Some(e) => {
                assert(e.0 == tokens_in(s, i, j)[0]);
                assert forall|k: int| 0 <= k < entries_from(s, i).len() implies valid_port(
                    #[trigger] entries_from(s, i)[k].0,
                ) by {
                    if k > 0 {
                        assert(entries_from(s, i)[k] == rest[k - 1]);
                    }
                }
            },
            None => {},
        }
    }
}

/// `first_by_pid` keeps the ports valid.
pub proof fn lemma_first_by_pid_valid(s: Seq<(Seq<char>, u32)>)
    requires
        valid_ports(s),
    ensures
        valid_ports(first_by_pid(s)),
    decreases s.len(),
{
    if s.len() > 0 {
        let before = s.drop_last();
        assert forall|i: int| 0 <= i < before.len() implies valid_port(#[trigger] before[i].0) by {
            assert(before[i] == s[i]);
        }
        lemma_first_by_pid_valid(before);
        let kept = first_by_pid(before);
        if !has_pid(kept, s.last().1) {
            assert(valid_port(s[s.len() - 1].0));
            assert forall|i: int| 0 <= i < kept.push(s.last()).len() implies valid_port(
                #[trigger] kept.push(s.last())[i].0,
            ) by {
                if i < kept.len() {
                    assert(kept.push(s.last())[i] == kept[i]);
                }
            }
        }
    }
}

/// A registry that was loaded from a text is saved and loaded again unchanged.
pub proof fn lemma_loaded_registry_round_trip(s: Seq<char>)
    ensures
        pid_file_entries(pid_file_text(pid_file_entries(s))) == pid_file_entries(s),
{
    lemma_entries_valid(s, 0);
    lemma_first_by_pid_valid(entries_from(s, 0));
    lemma_first_by_pid_is_distinct(entries_from(s, 0));
    lemma_pid_file_round_trip(pid_file_entries(s));
}

/// The text of the empty registry is empty, and an empty text holds no entry.
pub proof fn lemma_empty_pid_file()
    ensures
        pid_file_text(Seq::empty()) == Seq::<char>::empty(),
        pid_file_entries(Seq::empty()) == Seq::<(Seq<char>, u32)>::empty(),
{
}

} // verus!

//! The report of a session: its entries ranked, and its lines of text.

use crate::text::{chars_of, decimal, push_decimal, push_signed_decimal, signed_decimal};
use crate::tracker::{distinct, views, DomainSeconds, DomainTime, TrackerView};
use vstd::prelude::*;
use vstd::string::StringExecFns;

verus! {

/// What a session amounts to at the moment the report is made.
#[derive(Debug, Clone, PartialEq, Eq)]
pub struct SessionReport {
    /// Seconds between the start of the session and the last observation.
    pub session_seconds: i128,
    /// Seconds accrued while no domain was current.
    pub idle_seconds: u64,
    /// Seconds per domain: more seconds first, and among equal seconds the
    /// lesser name first.
    pub domains: Vec<DomainTime>,
}

/// `a` stands before `b` in the order of the dictionary, character by character.
pub open spec fn lex_less(a: Seq<char>, b: Seq<char>) -> bool
    decreases a.len(),
{
    if b.len() == 0 {
        false
    } else if a.len() == 0 {
        true
    } else if a[0] != b[0] {
        a[0] < b[0]
    } else {
        lex_less(a.drop_first(), b.drop_first())
    }
}

/// `a` is listed before `b`: more seconds first, and among equal seconds the
/// lesser name first.
pub open spec fn precedes(a: DomainSeconds, b: DomainSeconds) -> bool {
    a.seconds > b.seconds || (a.seconds == b.seconds && lex_less(a.domain, b.domain))
}

/// Each entry of `s` is listed before all that follow it.
pub open spec fn ranked(s: Seq<DomainSeconds>) -> bool {
    forall|i: int, j: int| 0 <= i < j < s.len() ==> precedes(#[trigger] s[i], #[trigger] s[j])
}

impl SessionReport {
    /// The report is the one of a tracker in `state`: its numbers are those
    /// of the state, and its entries are the state's, each once, ranked.
    pub open spec fn reports(self, state: TrackerView) -> bool {
        &&& self.session_seconds == state.session_elapsed()
        &&& self.idle_seconds == state.idle
        &&& ranked(views(self.domains@))
        &&& views(self.domains@).to_multiset() == state.times.to_multiset()
    }
}

/// Of two different texts one stands before the other.
pub proof fn lemma_lex_total(a: Seq<char>, b: Seq<char>)
    requires
        a != b,
    ensures
        lex_less(a, b) || lex_less(b, a),
    decreases a.len(),
{
    if a.len() == 0 {
        assert(b.len() != 0) by {
            if b.len() == 0 {
                assert(a =~= b);
            }
        }
    } else if b.len() == 0 {
    } else if a[0] != b[0] {
    } else {
        assert(a.drop_first() != b.drop_first()) by {
            if a.drop_first() == b.drop_first() {
                assert(a =~= seq![a[0]] + a.drop_first());
                assert(b =~= seq![b[0]] + b.drop_first());
            }
        }
        lemma_lex_total(a.drop_first(), b.drop_first());
    }
}

/// No text stands before itself.
pub proof fn lemma_lex_irreflexive(a: Seq<char>)
    ensures
        !lex_less(a, a),
    decreases a.len(),
{
    if a.len() > 0 {
        lemma_lex_irreflexive(a.drop_first());
    }
}

/// The order of the dictionary is transitive.
pub proof fn lemma_lex_transitive(a: Seq<char>, b: Seq<char>, c: Seq<char>)
    requires
        lex_less(a, b),
        lex_less(b, c),
    ensures
        lex_less(a, c),
    decreases a.len(),
{
    if a.len() > 0 && a[0] == b[0] && b[0] == c[0] {
        lemma_lex_transitive(a.drop_first(), b.drop_first(), c.drop_first());
    }
}

/// The order of the listing is transitive.
pub proof fn lemma_precedes_transitive(a: DomainSeconds, b: DomainSeconds, c: DomainSeconds)
    requires
        precedes(a, b),
        precedes(b, c),
    ensures
        precedes(a, c),
{
    if a.seconds == b.seconds && b.seconds == c.seconds {
        lemma_lex_transitive(a.domain, b.domain, c.domain);
    }
}

/// Of two entries neither is listed before the other and after it.
pub proof fn lemma_precedes_asymmetric(a: DomainSeconds, b: DomainSeconds)
    requires
        precedes(a, b),
    ensures
        !precedes(b, a),
{
    if precedes(b, a) {
        lemma_lex_transitive(a.domain, b.domain, a.domain);
        lemma_lex_irreflexive(a.domain);
    }
}

/// There is one ranking only: two ranked lists that hold the same entries,
/// each as often as the other, are the same list.
pub proof fn lemma_ranking_is_unique(a: Seq<DomainSeconds>, b: Seq<DomainSeconds>)
    requires
        ranked(a),
        ranked(b),
        a.to_multiset() == b.to_multiset(),
    ensures
        a == b,
    decreases a.len(),
{
    vstd::seq_lib::to_multiset_len(a);
    vstd::seq_lib::to_multiset_len(b);
    if a.len() == 0 {
        assert(a =~= b);
    } else {
        vstd::seq_lib::to_multiset_contains(a, a[0]);
        vstd::seq_lib::to_multiset_contains(b, a[0]);
        vstd::seq_lib::to_multiset_contains(a, b[0]);
        vstd::seq_lib::to_multiset_contains(b, b[0]);
        assert(a.contains(a[0]));
        assert(b.contains(b[0]));
        let j = choose|j: int| 0 <= j < b.len() && b[j] == a[0];
        let k = choose|k: int| 0 <= k < a.len() && a[k] == b[0];
        if j > 0 && k > 0 {
            assert(precedes(b[0], b[j]));
            assert(precedes(a[0], a[k]));
            lemma_precedes_asymmetric(a[0], b[0]);
        }
        assert(a[0] == b[0]);
        vstd::seq_lib::to_multiset_remove(a, 0);
        vstd::seq_lib::to_multiset_remove(b, 0);
        assert(a.remove(0) =~= a.drop_first());
        assert(b.remove(0) =~= b.drop_first());
        assert(ranked(a.drop_first())) by {
            assert forall|x: int, y: int| 0 <= x < y < a.drop_first().len() implies precedes(
                #[trigger] a.drop_first()[x],
                #[trigger] a.drop_first()[y],
            ) by {
                assert(precedes(a[x + 1], a[y + 1]));
            }
        }
        assert(ranked(b.drop_first())) by {
            assert forall|x: int, y: int| 0 <= x < y < b.drop_first().len() implies precedes(
                #[trigger] b.drop_first()[x],
                #[trigger] b.drop_first()[y],
            ) by {
                assert(precedes(b[x + 1], b[y + 1]));
            }
        }
        lemma_ranking_is_unique(a.drop_first(), b.drop_first());
        assert(a =~= seq![a[0]] + a.drop_first());
        assert(b =~= seq![b[0]] + b.drop_first());
    }
}

/// Whether the text `a` stands before the text `b` in the order of the dictionary.
pub fn text_before(a: &str, b: &str) -> (r: bool)
    ensures
        r == lex_less(a@, b@),
{
    let x = chars_of(a);
    let y = chars_of(b);
    let mut i: usize = 0;
    assert(x@.skip(0) =~= x@ && y@.skip(0) =~= y@);
    while i < x.len() && i < y.len()
        invariant
            i <= x.len(),
            i <= y.len(),
            x@ == a@,
            y@ == b@,
            lex_less(a@, b@) == lex_less(x@.skip(i as int), y@.skip(i as int)),
        decreases x.len() - i,
    {
        proof {
            let p = x@.skip(i as int);
            let q = y@.skip(i as int);
            assert(p[0] == x@[i as int]);
            assert(q[0] == y@[i as int]);
            assert(p.drop_first() =~= x@.skip(i + 1));
            assert(q.drop_first() =~= y@.skip(i + 1));
        }
        if x[i] != y[i] {
            return x[i] < y[i];
        }
        i = i + 1;
    }
    i < y.len()
}

/// Whether `a` is listed before `b`.
pub fn listed_before(a: &DomainTime, b: &DomainTime) -> (r: bool)
    ensures
        r == precedes(a@, b@),
{
    a.seconds > b.seconds || (a.seconds == b.seconds && text_before(
        a.domain.as_str(),
        b.domain.as_str(),
    ))
}

/// The entries ranked: more seconds first, and among equal seconds the lesser
/// name first. Nothing is added and nothing is lost.
pub fn rank(entries: &Vec<DomainTime>) -> (r: Vec<DomainTime>)
    requires
        distinct(views(entries@)),
    ensures
        ranked(views(r@)),
        views(r@).to_multiset() == views(entries@).to_multiset(),
{
    let mut sorted: Vec<DomainTime> = Vec::new();
    let mut i: usize = 0;
    assert(views(sorted@) =~= views(entries@.take(0)));
    while i < entries.len()
        invariant
            i <= entries.len(),
            distinct(views(entries@)),
            ranked(views(sorted@)),
            views(sorted@).to_multiset() == views(entries@.take(i as int)).to_multiset(),
        decreases entries.len() - i,
    {
        let entry = DomainTime { domain: entries[i].domain.clone(), seconds: entries[i].seconds };
        let ghost before = views(sorted@);
        let ghost taken = views(entries@.take(i as int));
        assert(entry@ == views(entries@)[i as int]);
        let mut p: usize = 0;
        while p < sorted.len() && !listed_before(&entry, &sorted[p])
            invariant
                p <= sorted.len(),
                before == views(sorted@),
                forall|k: int| 0 <= k < p ==> !precedes(entry@, #[trigger] before[k]),
            decreases sorted.len() - p,
        {
            p = p + 1;
        }
        sorted.insert(p, entry);
        proof {
            let after = views(sorted@);
            assert(after =~= before.insert(p as int, entry@));
            assert forall|k: int| 0 <= k < before.len() implies (#[trigger] before[k]).domain
                != entry@.domain by {
                vstd::seq_lib::to_multiset_contains(before, before[k]);
                vstd::seq_lib::to_multiset_contains(taken, before[k]);
                assert(before.contains(before[k]));
                assert(taken.contains(before[k]));
                let j = choose|j: int| 0 <= j < taken.len() && taken[j] == before[k];
                assert(taken[j] == views(entries@)[j]);
            }
            assert forall|x: int, y: int| 0 <= x < y < after.len() implies precedes(
                #[trigger] after[x],
                #[trigger] after[y],
            ) by {
                if y == p {
                    assert(after[x] == before[x]);
                    lemma_lex_total(entry@.domain, before[x].domain);
                } else if x == p {
                    assert(after[y] == before[y - 1]);
                    assert(precedes(entry@, before[p as int]));
                    if y - 1 > p {
                        lemma_precedes_transitive(entry@, before[p as int], before[y - 1]);
                    }
                } else {
                    let bx = if x < p { x } else { x - 1 };
                    let by = if y < p { y } else { y - 1 };
                    assert(after[x] == before[bx]);
                    assert(after[y] == before[by]);
                }
            }
            vstd::seq_lib::to_multiset_insert(before, p as int, entry@);
            assert(views(entries@.take(i + 1)) =~= taken.push(entry@));
            vstd::seq_lib::to_multiset_build(taken, entry@);
        }
        i = i + 1;
    }
    assert(entries@.take(entries.len() as int) =~= entries@);
    sorted
}

/// A number of seconds as minutes and seconds, as in `2m 5s`.
pub open spec fn duration_text(seconds: nat) -> Seq<char> {
    decimal(seconds / 60) + "m "@ + decimal(seconds % 60) + "s"@
}

/// The line of the summary for one domain.
pub open spec fn entry_line(entry: DomainSeconds) -> Seq<char> {
    "  "@ + entry.domain + " - "@ + duration_text(entry.seconds)
}

/// The whole minutes in a number of seconds, rounded towards zero.
pub open spec fn whole_minutes(seconds: int) -> int {
    if seconds >= 0 {
        seconds / 60
    } else {
        -((-seconds) / 60)
    }
}

/// The line of the summary that gives the length of the session.
pub open spec fn session_line(seconds: int) -> Seq<char> {
    "Session duration: "@ + signed_decimal(whole_minutes(seconds)) + " minutes"@
}

/// The lines of the summary: an empty line, a heading, the length of the
/// session, an empty line, a second heading, one line for each domain in the
/// order of the report, a rule and an empty line.
pub open spec fn summary_lines(session_seconds: int, domains: Seq<DomainSeconds>) -> Seq<
    Seq<char>,
> {
    seq![
        ""@,
        "--- Session Statistics ---"@,
        session_line(session_seconds),
        ""@,
        "Time spent per domain:"@,
    ] + domains.map_values(|e: DomainSeconds| entry_line(e)) + seq![
        "------------------------"@,
        ""@,
    ]
}

/// The texts of a list of lines, in the same order.
pub open spec fn line_views(lines: Seq<String>) -> Seq<Seq<char>> {
    lines.map_values(|l: String| l@)
}

/// The line of the summary for one domain.
pub fn format_entry(entry: &DomainTime) -> (r: String)
    ensures
        r@ == entry_line(entry@),
{
    let mut r = "  ".to_owned();
    r.append(entry.domain.as_str());
    r.append(" - ");
    push_decimal(&mut r, (entry.seconds / 60) as u128);
    r.append("m ");
    push_decimal(&mut r, (entry.seconds % 60) as u128);
    r.append("s");
    assert(r@ =~= entry_line(entry@));
    r
}

/// The line of the summary that gives the length of the session.
pub fn format_session(seconds: i128) -> (r: String)
    ensures
        r@ == session_line(seconds as int),
{
    let minutes: i128 = if seconds >= 0 {
        seconds / 60
    } else {
        let magnitude: u128 = (-(seconds + 1)) as u128 + 1;
        -((magnitude / 60) as i128)
    };
    let mut r = "Session duration: ".to_owned();
    push_signed_decimal(&mut r, minutes);
    r.append(" minutes");
    r
}

impl SessionReport {
    /// The summary of the report, line by line.
    pub fn lines(&self) -> (r: Vec<String>)
        ensures
            line_views(r@) == summary_lines(self.session_seconds as int, views(self.domains@)),
    {
        let mut r: Vec<String> = Vec::new();
        r.push(String::new());
        r.push("--- Session Statistics ---".to_owned());
        r.push(format_session(self.session_seconds));
        r.push(String::new());
        r.push("Time spent per domain:".to_owned());
        let ghost head = line_views(r@);
        let ghost all = views(self.domains@);
        proof {
            reveal_strlit("");
            assert(""@ =~= Seq::<char>::empty());
            assert(head =~= seq![
                ""@,
                "--- Session Statistics ---"@,
                session_line(self.session_seconds as int),
                ""@,
                "Time spent per domain:"@,
            ]);
        }
        let mut i: usize = 0;
        while i < self.domains.len()
            invariant
                i <= self.domains.len(),
                all == views(self.domains@),
                line_views(r@) == head + all.take(i as int).map_values(
                    |e: DomainSeconds| entry_line(e),
                ),
            decreases self.domains.len() - i,
        {
            let line = format_entry(&self.domains[i]);
            let ghost before = line_views(r@);
            let ghost text = line@;
            r.push(line);
            proof {
                let to_line = |e: DomainSeconds| entry_line(e);
                assert(all[i as int] == self.domains@[i as int]@);
                assert(line_views(r@) =~= before.push(text));
                assert(all.take(i + 1).map_values(to_line) =~= all.take(i as int).map_values(
                    to_line,
                ).push(entry_line(all[i as int])));
                assert(line_views(r@) =~= head + all.take(i + 1).map_values(to_line));
            }
            i = i + 1;
        }
        assert(all.take(self.domains.len() as int) =~= all);
        r.push("------------------------".to_owned());
        r.push(String::new());
        assert(line_views(r@) =~= summary_lines(self.session_seconds as int, all));
        r
    }
}

} // verus!

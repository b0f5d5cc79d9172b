//! The scrape of the run inventory in the text exposition format.
use vstd::prelude::*;
use vstd::relations::*;
use vstd::string::*;
use crate::order;
use crate::text;

verus! {

/// The most generators that get a series of their own.
pub const METRICS_GENERATOR_LIMIT: usize = 20;

/// The media type of a scrape.
pub fn metrics_content_type() -> (r: &'static str)
    ensures
        r@ == "text/plain; version=0.0.4; charset=utf-8"@,
{
    "text/plain; version=0.0.4; charset=utf-8"
}

/// The phase of a run, as far as it is counted.
#[derive(Debug, Clone, Copy, PartialEq, Eq, Structural)]
pub enum RunPhase {
    Queued,
    Running,
    Waiting,
    Confirming,
    /// Any other.
    Settled,
}

/// What a scrape looks at in a run.
#[derive(Debug)]
pub struct RunFact {
    pub phase: RunPhase,
    /// The name of its state.
    pub state: String,
    pub generator_id: String,
}

/// A name and how often it occurs.
pub type Count = (Seq<char>, nat);

/// The counts with one more occurrence of `name`, still in dictionary order.
pub open spec fn bumped(counts: Seq<Count>, name: Seq<char>) -> Seq<Count>
    decreases counts.len(),
{
    if counts.len() == 0 {
        seq![(name, 1nat)]
    } else if counts.last().0 == name {
        counts.drop_last().push((name, counts.last().1 + 1))
    } else if text::comes_before(counts.last().0, name) {
        counts.push((name, 1nat))
    } else {
        bumped(counts.drop_last(), name).push(counts.last())
    }
}

/// How often each name occurs, in dictionary order.
pub open spec fn tally(names: Seq<Seq<char>>) -> Seq<Count>
    decreases names.len(),
{
    if names.len() == 0 {
        Seq::empty()
    } else {
        bumped(tally(names.drop_last()), names.last())
    }
}

/// How often a name occurs.
pub open spec fn occurrences(names: Seq<Seq<char>>, name: Seq<char>) -> nat
    decreases names.len(),
{
    if names.len() == 0 {
        0
    } else {
        occurrences(names.drop_last(), name) + if names.last() == name {
            1nat
        } else {
            0nat
        }
    }
}

/// The counts, as values.
pub open spec fn count_views(counts: Seq<(String, usize)>) -> Seq<Count> {
    counts.map_values(|c: (String, usize)| (c.0@, c.1 as nat))
}

/// No count exceeds `most`.
pub open spec fn at_most(counts: Seq<Count>, most: nat) -> bool {
    forall|i: int| 0 <= i < counts.len() ==> (#[trigger] counts[i]).1 <= most
}

fn bump(counts: &mut Vec<(String, usize)>, name: &String)
    requires
        at_most(count_views(old(counts)@), (usize::MAX - 1) as nat),
    ensures
        count_views(final(counts)@) == bumped(count_views(old(counts)@), name@),
{
    let ghost start = count_views(counts@);
    let mut p: usize = counts.len();
    assert(start.take(p as int) =~= start);
    assert(start.skip(p as int) =~= Seq::<Count>::empty());
    assert(bumped(start, name@) =~= bumped(start.take(p as int), name@) + start.skip(p as int));
    while p > 0 && text::is_before(name.as_str(), counts[p - 1].0.as_str())
        invariant
            p <= counts@.len(),
            start == count_views(counts@),
            bumped(start, name@) == bumped(start.take(p as int), name@) + start.skip(p as int),
        decreases p,
    {
        let ghost here = start.take(p as int);
        proof {
            assert(here.last() == start[p - 1]);
            assert(here.drop_last() =~= start.take(p - 1));
            if text::comes_before(here.last().0, name@) {
                text::comes_before_transitive(name@, here.last().0, name@);
                text::comes_before_irreflexive(name@);
            }
            if here.last().0 == name@ {
                text::comes_before_irreflexive(name@);
            }
            assert(bumped(here, name@) == bumped(start.take(p - 1), name@).push(start[p - 1]));
            assert(start.skip(p - 1) =~= seq![start[p - 1]] + start.skip(p as int));
            assert(bumped(here, name@) + start.skip(p as int) =~= bumped(
                start.take(p - 1),
                name@,
            ) + start.skip(p - 1));
        }
        p -= 1;
    }
    let ghost here = start.take(p as int);
    if p > 0 && text::same_text(counts[p - 1].0.as_str(), name.as_str()) {
        assert(start[p - 1].1 <= usize::MAX - 1);
        let n: usize = counts[p - 1].1 + 1;
        counts.set(p - 1, (name.clone(), n));
        assert(here.last() == start[p - 1]);
        assert(count_views(counts@) =~= bumped(here, name@) + start.skip(p as int));
    } else {
        counts.insert(p, (name.clone(), 1));
        proof {
            if p > 0 {
                assert(here.last() == start[p - 1]);
                text::comes_before_total(here.last().0, name@);
                assert(bumped(here, name@) == here.push((name@, 1nat)));
            } else {
                assert(here.len() == 0);
                assert(bumped(here, name@) =~= here.push((name@, 1nat)));
            }
            assert(count_views(counts@) =~= bumped(here, name@) + start.skip(p as int));
        }
    }
}

proof fn bumping_raises_by_one(counts: Seq<Count>, name: Seq<char>, most: nat)
    requires
        at_most(counts, most),
    ensures
        at_most(bumped(counts, name), most + 1),
    decreases counts.len(),
{
    if counts.len() > 0 {
        let front = counts.drop_last();
        assert forall|i: int| 0 <= i < front.len() implies (#[trigger] front[i]).1 <= most by {
            assert(front[i] == counts[i]);
        }
        bumping_raises_by_one(front, name, most);
        assert(counts.last() == counts[counts.len() - 1]);
        assert forall|i: int| 0 <= i < bumped(counts, name).len() implies (#[trigger] bumped(
            counts,
            name,
        )[i]).1 <= most + 1 by {
            if counts.last().0 == name {
            } else if text::comes_before(counts.last().0, name) {
                if i < counts.len() {
                    assert(counts[i].1 <= most);
                }
            } else {
                let rest = bumped(front, name);
                if i < rest.len() {
                    assert(rest[i].1 <= most + 1);
                }
            }
        }
    }
}

/// Counts names, in dictionary order.
pub fn count_names(names: &Vec<String>) -> (r: Vec<(String, usize)>)
    ensures
        count_views(r@) == tally(names.deep_view()),
{
    let ghost all = names.deep_view();
    let mut counts: Vec<(String, usize)> = Vec::new();
    let mut i: usize = 0;
    assert(all.take(0) =~= Seq::<Seq<char>>::empty());
    assert(count_views(counts@) =~= Seq::<Count>::empty());
    while i < names.len()
        invariant
            i <= names@.len(),
            all == names.deep_view(),
            count_views(counts@) == tally(all.take(i as int)),
            at_most(count_views(counts@), i as nat),
        decreases names.len() - i,
    {
        assert(all.take(i + 1).drop_last() =~= all.take(i as int));
        assert(all.take(i + 1).last() == names@[i as int]@);
        proof {
            bumping_raises_by_one(count_views(counts@), names@[i as int]@, i as nat);
        }
        bump(&mut counts, &names[i]);
        i += 1;
    }
    assert(all.take(all.len() as int) =~= all);
    counts
}

/// A ranked generator.
pub type Ranked = (Seq<char>, usize);

/// Generators by how many runs they have, most first; ties by id.
pub open spec fn rank_leq(a: Ranked, b: Ranked) -> bool {
    a.1 > b.1 || (a.1 == b.1 && !text::comes_before(b.0, a.0))
}

/// The ranking order is total.
pub proof fn ranking_is_total()
    ensures
        total_ordering(|a: Ranked, b: Ranked| rank_leq(a, b)),
{
    let leq = |a: Ranked, b: Ranked| rank_leq(a, b);
    assert forall|a: Ranked| #[trigger] leq(a, a) by {
        text::comes_before_irreflexive(a.0);
    }
    assert forall|a: Ranked, b: Ranked| #[trigger] leq(a, b) && #[trigger] leq(b, a) implies a
        == b by {
        text::comes_before_total(a.0, b.0);
    }
    assert forall|a: Ranked, b: Ranked| #[trigger] leq(a, b) || #[trigger] leq(b, a) by {
        if text::comes_before(a.0, b.0) && text::comes_before(b.0, a.0) {
            text::comes_before_transitive(a.0, b.0, a.0);
            text::comes_before_irreflexive(a.0);
        }
    }
    assert forall|a: Ranked, b: Ranked, c: Ranked| #[trigger]
        leq(a, b) && #[trigger] leq(b, c) implies leq(a, c) by {
        if a.1 == b.1 && b.1 == c.1 && text::comes_before(c.0, a.0) {
            text::comes_before_total(a.0, b.0);
            text::comes_before_total(b.0, c.0);
            if text::comes_before(a.0, b.0) {
                text::comes_before_transitive(c.0, a.0, b.0);
            }
        }
    }
}

/// `ranked` holds the generators of `runs` in the ranking order.
pub open spec fn is_ranking(runs: Seq<Ranked>, ranked: Seq<Ranked>) -> bool {
    order::is_arrangement(runs, ranked, |a: Ranked, b: Ranked| rank_leq(a, b))
}

/// The generators, as values.
pub open spec fn ranked_views(runs: Seq<(String, usize)>) -> Seq<Ranked> {
    runs.map_values(|r: (String, usize)| (r.0@, r.1))
}

/// The first generators of a ranking, as many as get a series.
pub open spec fn top(ranked: Seq<Ranked>) -> Seq<Ranked> {
    if ranked.len() > METRICS_GENERATOR_LIMIT {
        ranked.take(METRICS_GENERATOR_LIMIT as int)
    } else {
        ranked
    }
}

fn ranks_before(a: &(String, usize), b: &(String, usize)) -> (r: bool)
    ensures
        r == !rank_leq((b.0@, b.1), (a.0@, a.1)),
{
    !(b.1 > a.1 || (b.1 == a.1 && !text::is_before(a.0.as_str(), b.0.as_str())))
}

fn place_ranked(ranked: &mut Vec<(String, usize)>, run: (String, usize))
    requires
        sorted_by(ranked_views(old(ranked)@), |a: Ranked, b: Ranked| rank_leq(a, b)),
    ensures
        sorted_by(ranked_views(final(ranked)@), |a: Ranked, b: Ranked| rank_leq(a, b)),
        ranked_views(final(ranked)@).to_multiset() == ranked_views(
            old(ranked)@,
        ).to_multiset().insert((run.0@, run.1)),
{
    broadcast use vstd::seq_lib::group_to_multiset_ensures;

    let ghost leq = |a: Ranked, b: Ranked| rank_leq(a, b);
    let ghost start = ranked_views(ranked@);
    let ghost new: Ranked = (run.0@, run.1);
    let mut p: usize = ranked.len();
    while p > 0 && ranks_before(&run, &ranked[p - 1])
        invariant
            p <= ranked@.len(),
            start == ranked_views(ranked@),
            new == (run.0@, run.1),
            forall|j: int| p <= j < start.len() ==> !rank_leq(#[trigger] start[j], new),
        decreases p,
    {
        assert(start[p - 1] == (ranked@[p - 1].0@, ranked@[p - 1].1));
        p -= 1;
    }
    proof {
        ranking_is_total();
        if p > 0 {
            assert(start[p - 1] == (ranked@[p - 1].0@, ranked@[p - 1].1));
            assert(leq(start[p - 1], new));
        }
    }
    ranked.insert(p, run);
    let ghost end = ranked_views(ranked@);
    assert(end =~= start.insert(p as int, new));
    proof {
        assert forall|i: int, j: int| 0 <= i < j < end.len() implies #[trigger] leq(
            end[i],
            end[j],
        ) by {
            if i < p && j < p {
                assert(leq(start[i], start[j]));
            } else if i < p && j == p {
                if i < p - 1 {
                    assert(leq(start[i], start[p - 1]));
                }
                assert(leq(start[i], new));
            } else if i < p {
                assert(leq(start[i], start[j - 1]));
            } else if i == p {
                assert(leq(new, start[j - 1]) || leq(start[j - 1], new));
            } else {
                assert(leq(start[i - 1], start[j - 1]));
            }
        }
    }
}

/// The generators with the most runs, most first; ties by id, so that the
/// order is the same in every scrape.
pub fn top_generator_runs(runs: &Vec<(String, usize)>) -> (r: Vec<(String, usize)>)
    ensures
        exists|ranked: Seq<Ranked>| #[trigger]
            is_ranking(ranked_views(runs@), ranked) && ranked_views(r@) == top(ranked),
{
    let ghost all = ranked_views(runs@);
    let mut ranked: Vec<(String, usize)> = Vec::new();
    let mut i: usize = 0;
    assert(all.take(0) =~= Seq::<Ranked>::empty());
    assert(ranked_views(ranked@) =~= Seq::<Ranked>::empty());
    while i < runs.len()
        invariant
            i <= runs@.len(),
            all == ranked_views(runs@),
            is_ranking(all.take(i as int), ranked_views(ranked@)),
        decreases runs.len() - i,
    {
        broadcast use vstd::seq_lib::group_to_multiset_ensures;

        let run = (runs[i].0.clone(), runs[i].1);
        assert(all.take(i + 1) =~= all.take(i as int).push((run.0@, run.1)));
        place_ranked(&mut ranked, run);
        i += 1;
    }
    assert(all.take(all.len() as int) =~= all);
    let ghost whole = ranked_views(ranked@);
    assert(is_ranking(all, whole));
    if ranked.len() > METRICS_GENERATOR_LIMIT {
        ranked.truncate(METRICS_GENERATOR_LIMIT);
        assert(ranked_views(ranked@) =~= whole.take(METRICS_GENERATOR_LIMIT as int));
    }
    ranked
}

/// A character as it stands in a label value.
pub open spec fn escaped_char(c: char) -> Seq<char> {
    if c == '\\' {
        seq!['\\', '\\']
    } else if c == '"' {
        seq!['\\', '"']
    } else if c == '\n' {
        seq!['\\', 'n']
    } else {
        seq![c]
    }
}

/// A text as it stands in a label value.
pub open spec fn escaped(s: Seq<char>) -> Seq<char>
    decreases s.len(),
{
    if s.len() == 0 {
        Seq::empty()
    } else {
        escaped_char(s[0]) + escaped(s.skip(1))
    }
}

/// Escapes a label value: backslash, double quote and newline, and nothing
/// else.
pub fn escape_prometheus_label(value: &str) -> (r: String)
    ensures
        r@ == escaped(value@),
{
    let chars = text::chars_of(value);
    let mut out = String::new();
    let mut i: usize = 0;
    assert(value@.skip(0) =~= value@);
    assert(out@ + escaped(value@) =~= escaped(value@));
    while i < chars.len()
        invariant
            i <= chars@.len(),
            chars@ == value@,
            escaped(value@) == out@ + escaped(value@.skip(i as int)),
        decreases chars.len() - i,
    {
        let c = chars[i];
        let ghost before = out@;
        assert(value@.skip(i as int)[0] == c);
        assert(value@.skip(i as int).skip(1) =~= value@.skip(i + 1));
        if c == '\\' {
            out.push('\\');
            out.push('\\');
        } else if c == '"' {
            out.push('\\');
            out.push('"');
        } else if c == '\n' {
            out.push('\\');
            out.push('n');
        } else {
            out.push(c);
        }
        assert(out@ =~= before + escaped_char(c));
        assert(before + (escaped_char(c) + escaped(value@.skip(i + 1))) =~= out@ + escaped(
            value@.skip(i + 1),
        ));
        i += 1;
    }
    assert(value@.skip(i as int) =~= Seq::<char>::empty());
    assert(out@ + Seq::<char>::empty() =~= out@);
    out
}

/// Two different label values never look the same.
pub proof fn labels_stay_apart(a: Seq<char>, b: Seq<char>)
    requires
        escaped(a) == escaped(b),
    ensures
        a == b,
    decreases a.len(),
{
    if a.len() == 0 {
        if b.len() > 0 {
            assert(escaped(b).len() > 0);
        }
        assert(a =~= b);
    } else if b.len() == 0 {
        assert(escaped(a).len() > 0);
    } else {
        let (x, y) = (escaped(a), escaped(b));
        let (p, q) = (escaped_char(a[0]), escaped_char(b[0]));
        assert(x[0] == p[0]);
        assert(y[0] == q[0]);
        if p.len() == 2 {
            assert(x[1] == p[1]);
        }
        if q.len() == 2 {
            assert(y[1] == q[1]);
        }
        assert(p.len() == q.len());
        assert(a[0] == b[0]);
        assert(x.skip(p.len() as int) =~= escaped(a.skip(1)));
        assert(y.skip(q.len() as int) =~= escaped(b.skip(1)));
        labels_stay_apart(a.skip(1), b.skip(1));
        assert(a =~= seq![a[0]] + a.skip(1));
        assert(b =~= seq![b[0]] + b.skip(1));
    }
}

/// A label value never breaks its line.
pub proof fn labels_stay_on_their_line(s: Seq<char>)
    ensures
        !escaped(s).contains('\n'),
    decreases s.len(),
{
    if s.len() > 0 {
        labels_stay_on_their_line(s.skip(1));
        let (p, rest) = (escaped_char(s[0]), escaped(s.skip(1)));
        assert forall|i: int| 0 <= i < escaped(s).len() implies escaped(s)[i] != '\n' by {
            if i >= p.len() {
                assert(rest.contains(rest[i - p.len()]));
            }
        }
    }
}

/// How many runs are in a phase.
pub open spec fn in_phase(runs: Seq<RunFact>, phase: RunPhase) -> nat
    decreases runs.len(),
{
    if runs.len() == 0 {
        0
    } else {
        in_phase(runs.drop_last(), phase) + if runs.last().phase == phase {
            1nat
        } else {
            0nat
        }
    }
}

fn count_phase(runs: &Vec<RunFact>, phase: RunPhase) -> (r: usize)
    ensures
        r == in_phase(runs@, phase),
        r <= runs@.len(),
{
    let mut n: usize = 0;
    let mut i: usize = 0;
    assert(runs@.take(0) =~= Seq::<RunFact>::empty());
    while i < runs.len()
        invariant
            i <= runs@.len(),
            n <= i,
            n == in_phase(runs@.take(i as int), phase),
        decreases runs.len() - i,
    {
        assert(runs@.take(i + 1).drop_last() =~= runs@.take(i as int));
        assert(runs@.take(i + 1).last() == runs@[i as int]);
        if runs[i].phase == phase {
            n += 1;
        }
        i += 1;
    }
    assert(runs@.take(runs@.len() as int) =~= runs@);
    n
}

/// The states of some runs.
pub open spec fn states_of(runs: Seq<RunFact>) -> Seq<Seq<char>> {
    runs.map_values(|r: RunFact| r.state@)
}

/// The generators of some runs.
pub open spec fn generators_of(runs: Seq<RunFact>) -> Seq<Seq<char>> {
    runs.map_values(|r: RunFact| r.generator_id@)
}

/// A sample with one label.
pub open spec fn labelled(
    name: Seq<char>,
    label: Seq<char>,
    value: Seq<char>,
    count: nat,
) -> Seq<char> {
    name + "{"@ + label + "=\""@ + value + "\"} "@ + text::decimal(count) + "\n"@
}

/// The samples by state.
pub open spec fn state_samples(counts: Seq<Count>) -> Seq<char>
    decreases counts.len(),
{
    if counts.len() == 0 {
        Seq::empty()
    } else {
        state_samples(counts.drop_last()) + labelled(
            "qcg_runs_total"@,
            "state"@,
            counts.last().0,
            counts.last().1,
        )
    }
}

/// The samples by generator.
pub open spec fn generator_samples(ranked: Seq<Ranked>) -> Seq<char>
    decreases ranked.len(),
{
    if ranked.len() == 0 {
        Seq::empty()
    } else {
        generator_samples(ranked.drop_last()) + labelled(
            "qcg_generator_runs_total"@,
            "generator"@,
            escaped(ranked.last().0),
            ranked.last().1 as nat,
        )
    }
}

/// A gauge with a single sample.
pub open spec fn gauge(name: Seq<char>, help: Seq<char>, count: nat) -> Seq<char> {
    "# HELP "@ + name + " "@ + help + "\n# TYPE "@ + name + " gauge\n"@ + name + " "@
        + text::decimal(count) + "\n"@
}

/// A scrape whose generators are ranked so.
pub open spec fn scrape(runs: Seq<RunFact>, ranked: Seq<Ranked>) -> Seq<char> {
    "# HELP qcg_runs_total Number of durable runs by state.\n# TYPE qcg_runs_total gauge\n"@
        + state_samples(tally(states_of(runs))) + gauge(
        "qcg_runs_active"@,
        "Number of queued or running runs."@,
        in_phase(runs, RunPhase::Queued) + in_phase(runs, RunPhase::Running),
    ) + gauge(
        "qcg_runs_queued"@,
        "Number of queued runs."@,
        in_phase(runs, RunPhase::Queued),
    ) + gauge(
        "qcg_runs_waiting"@,
        "Number of runs waiting for interactive input."@,
        in_phase(runs, RunPhase::Waiting),
    ) + gauge(
        "qcg_runs_confirming"@,
        "Number of runs waiting for confirmation."@,
        in_phase(runs, RunPhase::Confirming),
    ) + gauge(
        "qcg_generators"@,
        "Number of distinct generators represented in the run inventory."@,
        tally(generators_of(runs)).len(),
    )
        + "# HELP qcg_generator_runs_total Number of durable runs per generator (top 20 by run count).\n# TYPE qcg_generator_runs_total gauge\n"@
        + generator_samples(top(ranked))
}

/// The generators of some runs with their counts.
pub open spec fn generator_counts(runs: Seq<RunFact>) -> Seq<Ranked> {
    tally(generators_of(runs)).map_values(|c: Count| (c.0, c.1 as usize))
}

fn push_labelled(body: &mut String, name: &str, label: &str, value: &str, count: usize)
    ensures
        final(body)@ == old(body)@ + labelled(name@, label@, value@, count as nat),
{
    let ghost start = body@;
    body.append(name);
    body.append("{");
    body.append(label);
    body.append("=\"");
    body.append(value);
    body.append("\"} ");
    text::push_decimal(body, count as u64);
    body.append("\n");
    assert(body@ =~= start + labelled(name@, label@, value@, count as nat));
}

fn push_gauge(body: &mut String, name: &str, help: &str, count: usize)
    ensures
        final(body)@ == old(body)@ + gauge(name@, help@, count as nat),
{
    let ghost start = body@;
    body.append("# HELP ");
    body.append(name);
    body.append(" ");
    body.append(help);
    body.append("\n# TYPE ");
    body.append(name);
    body.append(" gauge\n");
    body.append(name);
    body.append(" ");
    text::push_decimal(body, count as u64);
    body.append("\n");
    assert(body@ =~= start + gauge(name@, help@, count as nat));
}

fn push_states(body: &mut String, counts: &Vec<(String, usize)>)
    ensures
        final(body)@ == old(body)@ + state_samples(count_views(counts@)),
{
    let ghost start = body@;
    let ghost all = count_views(counts@);
    let mut i: usize = 0;
    assert(all.take(0) =~= Seq::<Count>::empty());
    assert(start + Seq::<char>::empty() =~= start);
    while i < counts.len()
        invariant
            i <= counts@.len(),
            all == count_views(counts@),
            body@ == start + state_samples(all.take(i as int)),
        decreases counts.len() - i,
    {
        let ghost before = state_samples(all.take(i as int));
        assert(all.take(i + 1).drop_last() =~= all.take(i as int));
        assert(all.take(i + 1).last() == (counts@[i as int].0@, counts@[i as int].1 as nat));
        push_labelled(body, "qcg_runs_total", "state", counts[i].0.as_str(), counts[i].1);
        assert(body@ =~= start + (before + labelled(
            "qcg_runs_total"@,
            "state"@,
            counts@[i as int].0@,
            counts@[i as int].1 as nat,
        )));
        i += 1;
    }
    assert(all.take(all.len() as int) =~= all);
}

fn push_generators(body: &mut String, ranked: &Vec<(String, usize)>)
    ensures
        final(body)@ == old(body)@ + generator_samples(ranked_views(ranked@)),
{
    let ghost start = body@;
    let ghost all = ranked_views(ranked@);
    let mut i: usize = 0;
    assert(all.take(0) =~= Seq::<Ranked>::empty());
    assert(start + Seq::<char>::empty() =~= start);
    while i < ranked.len()
        invariant
            i <= ranked@.len(),
            all == ranked_views(ranked@),
            body@ == start + generator_samples(all.take(i as int)),
        decreases ranked.len() - i,
    {
        let ghost before = generator_samples(all.take(i as int));
        assert(all.take(i + 1).drop_last() =~= all.take(i as int));
        assert(all.take(i + 1).last() == (ranked@[i as int].0@, ranked@[i as int].1));
        let label = escape_prometheus_label(ranked[i].0.as_str());
        push_labelled(
            body,
            "qcg_generator_runs_total",
            "generator",
            label.as_str(),
            ranked[i].1,
        );
        assert(body@ =~= start + (before + labelled(
            "qcg_generator_runs_total"@,
            "generator"@,
            label@,
            ranked@[i as int].1 as nat,
        )));
        i += 1;
    }
    assert(all.take(all.len() as int) =~= all);
}

fn state_names(runs: &Vec<RunFact>) -> (r: Vec<String>)
    ensures
        r.deep_view() == states_of(runs@),
{
    let mut names: Vec<String> = Vec::new();
    let mut i: usize = 0;
    while i < runs.len()
        invariant
            i <= runs@.len(),
            names@.len() == i,
            forall|j: int| 0 <= j < i ==> (#[trigger] names@[j])@ == runs@[j].state@,
        decreases runs.len() - i,
    {
        names.push(runs[i].state.clone());
        i += 1;
    }
    assert(names.deep_view() =~= states_of(runs@));
    names
}

fn generator_names(runs: &Vec<RunFact>) -> (r: Vec<String>)
    ensures
        r.deep_view() == generators_of(runs@),
{
    let mut names: Vec<String> = Vec::new();
    let mut i: usize = 0;
    while i < runs.len()
        invariant
            i <= runs@.len(),
            names@.len() == i,
            forall|j: int| 0 <= j < i ==> (#[trigger] names@[j])@ == runs@[j].generator_id@,
        decreases runs.len() - i,
    {
        names.push(runs[i].generator_id.clone());
        i += 1;
    }
    assert(names.deep_view() =~= generators_of(runs@));
    names
}

/// Renders a scrape from one reading of the inventory.
pub fn metrics(runs: &Vec<RunFact>) -> (r: String)
    ensures
        exists|ranked: Seq<Ranked>| #[trigger]
            is_ranking(generator_counts(runs@), ranked) && r@ == scrape(runs@, ranked),
{
    let states = count_names(&state_names(runs));
    let generators = count_names(&generator_names(runs));
    assert(ranked_views(generators@) =~= generator_counts(runs@)) by {
        let counted = tally(generators_of(runs@));
        assert forall|i: int| 0 <= i < generators@.len() implies ranked_views(generators@)[i]
            == generator_counts(runs@)[i] by {
            assert(counted[i] == count_views(generators@)[i]);
        }
        assert(counted.len() == generators@.len());
    }
    let ranked = top_generator_runs(&generators);
    let queued: usize = count_phase(runs, RunPhase::Queued);
    let running: usize = count_phase(runs, RunPhase::Running);
    let waiting: usize = count_phase(runs, RunPhase::Waiting);
    let confirming: usize = count_phase(runs, RunPhase::Confirming);
    proof {
        phases_are_apart(runs@);
    }
    let mut body =
        "# HELP qcg_runs_total Number of durable runs by state.\n# TYPE qcg_runs_total gauge\n".to_owned();
    push_states(&mut body, &states);
    push_gauge(
        &mut body,
        "qcg_runs_active",
        "Number of queued or running runs.",
        queued + running,
    );
    push_gauge(&mut body, "qcg_runs_queued", "Number of queued runs.", queued);
    push_gauge(
        &mut body,
        "qcg_runs_waiting",
        "Number of runs waiting for interactive input.",
        waiting,
    );
    push_gauge(
        &mut body,
        "qcg_runs_confirming",
        "Number of runs waiting for confirmation.",
        confirming,
    );
    push_gauge(
        &mut body,
        "qcg_generators",
        "Number of distinct generators represented in the run inventory.",
        generators.len(),
    );
    body.append(
        "# HELP qcg_generator_runs_total Number of durable runs per generator (top 20 by run count).\n# TYPE qcg_generator_runs_total gauge\n",
    );
    push_generators(&mut body, &ranked);
    body
}

proof fn phases_are_apart(runs: Seq<RunFact>)
    ensures
        in_phase(runs, RunPhase::Queued) + in_phase(runs, RunPhase::Running) <= runs.len(),
    decreases runs.len(),
{
    if runs.len() > 0 {
        phases_are_apart(runs.drop_last());
    }
}

/// In dictionary order, without repetition.
pub open spec fn distinct_names(counts: Seq<Count>) -> bool {
    forall|i: int, j: int|
        0 <= i < j < counts.len() ==> text::comes_before(
            (#[trigger] counts[i]).0,
            (#[trigger] counts[j]).0,
        )
}

/// The count of a name in a list; zero where it is not listed.
pub open spec fn listed_count(counts: Seq<Count>, name: Seq<char>) -> nat
    decreases counts.len(),
{
    if counts.len() == 0 {
        0
    } else if counts.last().0 == name {
        counts.last().1
    } else {
        listed_count(counts.drop_last(), name)
    }
}

proof fn bumping_counts_one(counts: Seq<Count>, name: Seq<char>, other: Seq<char>)
    requires
        distinct_names(counts),
    ensures
        distinct_names(bumped(counts, name)),
        listed_count(bumped(counts, name), other) == listed_count(counts, other) + (if other
            == name {
            1nat
        } else {
            0nat
        }),
        forall|i: int|
            0 <= i < bumped(counts, name).len() ==> ((#[trigger] bumped(counts, name)[i]).0 == name
                || exists|j: int| 0 <= j < counts.len() && (#[trigger] counts[j]).0 == bumped(
                counts,
                name,
            )[i].0),
    decreases counts.len(),
{
    let after = bumped(counts, name);
    if counts.len() == 0 {
        assert(after.drop_last() =~= counts);
    } else {
        let front = counts.drop_last();
        let last = counts.last();
        assert(distinct_names(front)) by {
            assert forall|i: int, j: int| 0 <= i < j < front.len() implies text::comes_before(
                (#[trigger] front[i]).0,
                (#[trigger] front[j]).0,
            ) by {
                assert(front[i] == counts[i] && front[j] == counts[j]);
            }
        }
        bumping_counts_one(front, name, other);
        if last.0 == name {
            assert(after.drop_last() =~= front);
            assert forall|i: int, j: int| 0 <= i < j < after.len() implies text::comes_before(
                (#[trigger] after[i]).0,
                (#[trigger] after[j]).0,
            ) by {
                assert(after[i].0 == counts[i].0 && after[j].0 == counts[j].0);
            }
            assert forall|i: int| 0 <= i < after.len() implies ((#[trigger] after[i]).0 == name
                || exists|j: int| 0 <= j < counts.len() && (#[trigger] counts[j]).0 == after[i].0) by {
                assert(counts[i].0 == after[i].0);
            }
        } else if text::comes_before(last.0, name) {
            assert(after.drop_last() =~= counts);
            assert forall|i: int, j: int| 0 <= i < j < after.len() implies text::comes_before(
                (#[trigger] after[i]).0,
                (#[trigger] after[j]).0,
            ) by {
                if j == counts.len() && i < counts.len() - 1 {
                    assert(text::comes_before(counts[i].0, counts[counts.len() - 1].0));
                    text::comes_before_transitive(counts[i].0, last.0, name);
                }
            }
            assert forall|i: int| 0 <= i < after.len() implies ((#[trigger] after[i]).0 == name
                || exists|j: int| 0 <= j < counts.len() && (#[trigger] counts[j]).0 == after[i].0) by {
                if i < counts.len() {
                    assert(counts[i].0 == after[i].0);
                }
            }
            if other == name {
                listed_count_beyond(counts, name);
            }
        } else {
            text::comes_before_total(last.0, name);
            let rest = bumped(front, name);
            assert(after.drop_last() =~= rest);
            assert forall|i: int| 0 <= i < after.len() implies ((#[trigger] after[i]).0 == name
                || exists|j: int| 0 <= j < counts.len() && (#[trigger] counts[j]).0 == after[i].0) by {
                if i < rest.len() {
                    assert(after[i] == rest[i]);
                    if rest[i].0 != name {
                        let j = choose|j: int|
                            0 <= j < front.len() && (#[trigger] front[j]).0 == rest[i].0;
                        assert(counts[j].0 == after[i].0);
                    }
                } else {
                    assert(counts[counts.len() - 1].0 == after[i].0);
                }
            }
            assert forall|i: int, j: int| 0 <= i < j < after.len() implies text::comes_before(
                (#[trigger] after[i]).0,
                (#[trigger] after[j]).0,
            ) by {
                if j < rest.len() {
                    assert(after[i] == rest[i] && after[j] == rest[j]);
                } else {
                    assert(after[i] == rest[i]);
                    if rest[i].0 != name {
                        let k = choose|k: int|
                            0 <= k < front.len() && (#[trigger] front[k]).0 == rest[i].0;
                        assert(text::comes_before(counts[k].0, counts[counts.len() - 1].0));
                    }
                }
            }
        }
    }
}

proof fn listed_count_beyond(counts: Seq<Count>, name: Seq<char>)
    requires
        distinct_names(counts),
        counts.len() > 0 ==> text::comes_before(counts.last().0, name),
    ensures
        listed_count(counts, name) == 0,
    decreases counts.len(),
{
    if counts.len() > 0 {
        text::comes_before_irreflexive(name);
        let front = counts.drop_last();
        assert forall|i: int, j: int| 0 <= i < j < front.len() implies text::comes_before(
            (#[trigger] front[i]).0,
            (#[trigger] front[j]).0,
        ) by {
            assert(front[i] == counts[i] && front[j] == counts[j]);
        }
        if front.len() > 0 {
            assert(text::comes_before(counts[counts.len() - 2].0, counts[counts.len() - 1].0));
            text::comes_before_transitive(front.last().0, counts.last().0, name);
        }
        listed_count_beyond(front, name);
    }
}

/// A tally lists each name that occurs once, in dictionary order, with the
/// number of its occurrences.
pub proof fn a_tally_counts_every_name(names: Seq<Seq<char>>, name: Seq<char>)
    ensures
        distinct_names(tally(names)),
        listed_count(tally(names), name) == occurrences(names, name),
    decreases names.len(),
{
    if names.len() > 0 {
        a_tally_counts_every_name(names.drop_last(), name);
        bumping_counts_one(tally(names.drop_last()), names.last(), name);
    }
}

/// However many generators there are, a scrape names at most twenty of them,
/// and no unnamed one has more runs than a named one.
pub proof fn generator_series_are_bounded(runs: Seq<Ranked>, ranked: Seq<Ranked>)
    requires
        is_ranking(runs, ranked),
    ensures
        top(ranked).len() <= 20,
        forall|i: int, j: int|
            0 <= i < top(ranked).len() <= j < ranked.len() ==> (#[trigger] top(ranked)[i]).1
                >= (#[trigger] ranked[j]).1,
{
    let leq = |a: Ranked, b: Ranked| rank_leq(a, b);
    assert forall|i: int, j: int| 0 <= i < top(ranked).len() <= j < ranked.len() implies (
    #[trigger] top(ranked)[i]).1 >= (#[trigger] ranked[j]).1 by {
        assert(leq(ranked[i], ranked[j]));
    }
}

} // verus!

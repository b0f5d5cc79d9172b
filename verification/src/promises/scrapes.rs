//! What a scrape says of the run inventory, read back from its lines.
use vstd::prelude::*;
use crate::metrics;
use crate::metrics::{RunFact, RunPhase};
use crate::text;

verus! {

/// `line` is one of the lines of `body`, after the first.
pub open spec fn has_line(body: Seq<char>, line: Seq<char>) -> bool {
    exists|before: Seq<char>, after: Seq<char>|
        body == #[trigger] (before + "\n"@ + line + "\n"@ + after)
}

/// How many runs are in a phase.
pub open spec fn runs_in(runs: Seq<RunFact>, phase: RunPhase) -> nat {
    runs.filter(|r: RunFact| r.phase == phase).len()
}

/// How many runs are in a state.
pub open spec fn runs_with_state(runs: Seq<RunFact>, state: Seq<char>) -> nat {
    runs.filter(|r: RunFact| r.state@ == state).len()
}

/// How many runs a generator has.
pub open spec fn runs_of(runs: Seq<RunFact>, generator: Seq<char>) -> nat {
    runs.filter(|r: RunFact| r.generator_id@ == generator).len()
}

/// Each gauge carries the number of runs in the phase that it is named after;
/// the active runs are those that are queued or running.
pub proof fn each_gauge_counts_its_phase(runs: Seq<RunFact>, ranked: Seq<metrics::Ranked>)
    ensures
        has_line(
            metrics::scrape(runs, ranked),
            "qcg_runs_waiting "@ + text::decimal(runs_in(runs, RunPhase::Waiting)),
        ),
        has_line(
            metrics::scrape(runs, ranked),
            "qcg_runs_confirming "@ + text::decimal(runs_in(runs, RunPhase::Confirming)),
        ),
        has_line(
            metrics::scrape(runs, ranked),
            "qcg_runs_queued "@ + text::decimal(runs_in(runs, RunPhase::Queued)),
        ),
        has_line(
            metrics::scrape(runs, ranked),
            "qcg_runs_active "@ + text::decimal(
                runs.filter(
                    |r: RunFact| r.phase == RunPhase::Queued || r.phase == RunPhase::Running,
                ).len(),
            ),
        ),
{
    phases_are_filtered(runs);
    let start =
        "# HELP qcg_runs_total Number of durable runs by state.\n# TYPE qcg_runs_total gauge\n"@
        + metrics::state_samples(metrics::tally(metrics::states_of(runs)));
    let active = metrics::in_phase(runs, RunPhase::Queued) + metrics::in_phase(
        runs,
        RunPhase::Running,
    );
    let g1 = metrics::gauge("qcg_runs_active"@, "Number of queued or running runs."@, active);
    let g2 = metrics::gauge(
        "qcg_runs_queued"@,
        "Number of queued runs."@,
        metrics::in_phase(runs, RunPhase::Queued),
    );
    let g3 = metrics::gauge(
        "qcg_runs_waiting"@,
        "Number of runs waiting for interactive input."@,
        metrics::in_phase(runs, RunPhase::Waiting),
    );
    let g4 = metrics::gauge(
        "qcg_runs_confirming"@,
        "Number of runs waiting for confirmation."@,
        metrics::in_phase(runs, RunPhase::Confirming),
    );
    let g5 = metrics::gauge(
        "qcg_generators"@,
        "Number of distinct generators represented in the run inventory."@,
        metrics::tally(metrics::generators_of(runs)).len(),
    );
    let tail_head =
        "# HELP qcg_generator_runs_total Number of durable runs per generator (top 20 by run count).\n# TYPE qcg_generator_runs_total gauge\n"@;
    let tail = metrics::generator_samples(metrics::top(ranked));
    let (b1, b2) = (start + g1, start + g1 + g2);
    let (b3, b4) = (b2 + g3, b2 + g3 + g4);
    let l1 = "qcg_runs_active "@ + text::decimal(active);
    let l2 = "qcg_runs_queued "@ + text::decimal(metrics::in_phase(runs, RunPhase::Queued));
    let l3 = "qcg_runs_waiting "@ + text::decimal(metrics::in_phase(runs, RunPhase::Waiting));
    let l4 = "qcg_runs_confirming "@ + text::decimal(
        metrics::in_phase(runs, RunPhase::Confirming),
    );
    assert("qcg_runs_active"@ + " "@ =~= "qcg_runs_active "@) by {
        reveal_strlit("qcg_runs_active");
        reveal_strlit("qcg_runs_active ");
        reveal_strlit(" ");
    }
    assert("qcg_runs_queued"@ + " "@ =~= "qcg_runs_queued "@) by {
        reveal_strlit("qcg_runs_queued");
        reveal_strlit("qcg_runs_queued ");
        reveal_strlit(" ");
    }
    assert("qcg_runs_waiting"@ + " "@ =~= "qcg_runs_waiting "@) by {
        reveal_strlit("qcg_runs_waiting");
        reveal_strlit("qcg_runs_waiting ");
        reveal_strlit(" ");
    }
    assert("qcg_runs_confirming"@ + " "@ =~= "qcg_runs_confirming "@) by {
        reveal_strlit("qcg_runs_confirming");
        reveal_strlit("qcg_runs_confirming ");
        reveal_strlit(" ");
    }
    a_gauge_has_its_line(start, "qcg_runs_active"@, "Number of queued or running runs."@, active);
    a_gauge_has_its_line(
        b1,
        "qcg_runs_queued"@,
        "Number of queued runs."@,
        metrics::in_phase(runs, RunPhase::Queued),
    );
    a_gauge_has_its_line(
        b2,
        "qcg_runs_waiting"@,
        "Number of runs waiting for interactive input."@,
        metrics::in_phase(runs, RunPhase::Waiting),
    );
    a_gauge_has_its_line(
        b3,
        "qcg_runs_confirming"@,
        "Number of runs waiting for confirmation."@,
        metrics::in_phase(runs, RunPhase::Confirming),
    );
    a_line_stays(b1, g2, l1);
    a_line_stays(b2, g3, l1);
    a_line_stays(b3, g4, l1);
    a_line_stays(b2, g3, l2);
    a_line_stays(b3, g4, l2);
    a_line_stays(b3, g4, l3);
    let b5 = b4 + g5;
    let b6 = b5 + tail_head;
    a_line_stays(b4, g5, l1);
    a_line_stays(b4, g5, l2);
    a_line_stays(b4, g5, l3);
    a_line_stays(b4, g5, l4);
    a_line_stays(b5, tail_head, l1);
    a_line_stays(b5, tail_head, l2);
    a_line_stays(b5, tail_head, l3);
    a_line_stays(b5, tail_head, l4);
    a_line_stays(b6, tail, l1);
    a_line_stays(b6, tail, l2);
    a_line_stays(b6, tail, l3);
    a_line_stays(b6, tail, l4);
    assert(metrics::scrape(runs, ranked) == b6 + tail);
}

/// The number of generators is that of the different generator names.
pub proof fn the_generators_are_counted(runs: Seq<RunFact>, ranked: Seq<metrics::Ranked>)
    ensures
        has_line(
            metrics::scrape(runs, ranked),
            "qcg_generators "@ + text::decimal(
                runs.map_values(|r: RunFact| r.generator_id@).to_set().len(),
            ),
        ),
{
    let names = metrics::generators_of(runs);
    assert(names =~= runs.map_values(|r: RunFact| r.generator_id@));
    a_tally_lists_each_name_once(names);
    let start =
        "# HELP qcg_runs_total Number of durable runs by state.\n# TYPE qcg_runs_total gauge\n"@
        + metrics::state_samples(metrics::tally(metrics::states_of(runs)));
    let before = start + metrics::gauge(
        "qcg_runs_active"@,
        "Number of queued or running runs."@,
        metrics::in_phase(runs, RunPhase::Queued) + metrics::in_phase(runs, RunPhase::Running),
    ) + metrics::gauge(
        "qcg_runs_queued"@,
        "Number of queued runs."@,
        metrics::in_phase(runs, RunPhase::Queued),
    ) + metrics::gauge(
        "qcg_runs_waiting"@,
        "Number of runs waiting for interactive input."@,
        metrics::in_phase(runs, RunPhase::Waiting),
    ) + metrics::gauge(
        "qcg_runs_confirming"@,
        "Number of runs waiting for confirmation."@,
        metrics::in_phase(runs, RunPhase::Confirming),
    );
    let help = "Number of distinct generators represented in the run inventory."@;
    let count = metrics::tally(names).len();
    let line = "qcg_generators "@ + text::decimal(count);
    assert("qcg_generators"@ + " "@ =~= "qcg_generators "@) by {
        reveal_strlit("qcg_generators");
        reveal_strlit("qcg_generators ");
        reveal_strlit(" ");
    }
    a_gauge_has_its_line(before, "qcg_generators"@, help, count);
    let tail_head =
        "# HELP qcg_generator_runs_total Number of durable runs per generator (top 20 by run count).\n# TYPE qcg_generator_runs_total gauge\n"@;
    let through = before + metrics::gauge("qcg_generators"@, help, count);
    a_line_stays(through, tail_head, line);
    a_line_stays(
        through + tail_head,
        metrics::generator_samples(metrics::top(ranked)),
        line,
    );
    assert(metrics::scrape(runs, ranked) == through + tail_head + metrics::generator_samples(
        metrics::top(ranked),
    ));
}

/// Every state that a run is in has a line, with the number of its runs.
pub proof fn every_state_is_counted(runs: Seq<RunFact>, ranked: Seq<metrics::Ranked>, i: int)
    requires
        0 <= i < runs.len(),
    ensures
        has_line(
            metrics::scrape(runs, ranked),
            "qcg_runs_total{state=\""@ + runs[i].state@ + "\"} "@ + text::decimal(
                runs_with_state(runs, runs[i].state@),
            ),
        ),
{
    let names = metrics::states_of(runs);
    let name = runs[i].state@;
    assert(names[i] == name);
    let counts = metrics::tally(names);
    states_are_filtered(runs, name);
    an_occurring_name_occurs(names, i);
    metrics::a_tally_counts_every_name(names, name);
    let k = a_listed_name_has_a_place(counts, name);
    let head =
        "# HELP qcg_runs_total Number of durable runs by state.\n# TYPE qcg_runs_total gauge\n"@;
    assert(head.len() > 0 && head.last() == '\n') by {
        reveal_strlit(
            "# HELP qcg_runs_total Number of durable runs by state.\n# TYPE qcg_runs_total gauge\n",
        );
    }
    a_state_sample_is_a_line(head, counts, k);
    let line = "qcg_runs_total{state=\""@ + name + "\"} "@ + text::decimal(counts[k].1);
    let active = metrics::gauge(
        "qcg_runs_active"@,
        "Number of queued or running runs."@,
        metrics::in_phase(runs, RunPhase::Queued) + metrics::in_phase(runs, RunPhase::Running),
    );
    let queued = metrics::gauge(
        "qcg_runs_queued"@,
        "Number of queued runs."@,
        metrics::in_phase(runs, RunPhase::Queued),
    );
    let waiting = metrics::gauge(
        "qcg_runs_waiting"@,
        "Number of runs waiting for interactive input."@,
        metrics::in_phase(runs, RunPhase::Waiting),
    );
    let confirming = metrics::gauge(
        "qcg_runs_confirming"@,
        "Number of runs waiting for confirmation."@,
        metrics::in_phase(runs, RunPhase::Confirming),
    );
    let generators = metrics::gauge(
        "qcg_generators"@,
        "Number of distinct generators represented in the run inventory."@,
        metrics::tally(metrics::generators_of(runs)).len(),
    );
    let tail_head =
        "# HELP qcg_generator_runs_total Number of durable runs per generator (top 20 by run count).\n# TYPE qcg_generator_runs_total gauge\n"@;
    let tail = metrics::generator_samples(metrics::top(ranked));
    let b0 = head + metrics::state_samples(counts);
    a_line_stays(b0, active, line);
    a_line_stays(b0 + active, queued, line);
    a_line_stays(b0 + active + queued, waiting, line);
    a_line_stays(b0 + active + queued + waiting, confirming, line);
    a_line_stays(b0 + active + queued + waiting + confirming, generators, line);
    a_line_stays(b0 + active + queued + waiting + confirming + generators, tail_head, line);
    a_line_stays(
        b0 + active + queued + waiting + confirming + generators + tail_head,
        tail,
        line,
    );
    assert(metrics::scrape(runs, ranked) == b0 + active + queued + waiting + confirming
        + generators + tail_head + tail);
}

/// The generators are ranked by their number of runs, and among equals by
/// name; each generator stands in the ranking once, with the number of its
/// runs; and each of the first twenty has a line, with its name escaped.
pub proof fn the_busiest_generators_are_named(
    runs: Seq<RunFact>,
    ranked: Seq<metrics::Ranked>,
    k: int,
    l: int,
)
    requires
        runs.len() <= usize::MAX,
        metrics::is_ranking(metrics::generator_counts(runs), ranked),
        0 <= k < ranked.len(),
    ensures
        ranked.len() == runs.map_values(|r: RunFact| r.generator_id@).to_set().len(),
        ranked[k].1 == runs_of(runs, ranked[k].0),
        ranked[k].1 > 0,
        k < l < ranked.len() ==> ranked[k].1 > ranked[l].1 || (ranked[k].1 == ranked[l].1
            && text::comes_before(ranked[k].0, ranked[l].0)),
        k < 20 ==> has_line(
            metrics::scrape(runs, ranked),
            "qcg_generator_runs_total{generator=\""@ + metrics::escaped(ranked[k].0) + "\"} "@
                + text::decimal(runs_of(runs, ranked[k].0)),
        ),
{
    let names = metrics::generators_of(runs);
    assert(names =~= runs.map_values(|r: RunFact| r.generator_id@));
    a_tally_lists_each_name_once(names);
    let counts = metrics::tally(names);
    let listed = metrics::generator_counts(runs);
    ranked.to_multiset_ensures();
    listed.to_multiset_ensures();
    let leq = |a: metrics::Ranked, b: metrics::Ranked| metrics::rank_leq(a, b);
    assert(ranked.len() == ranked.to_multiset().len());
    assert(ranked.to_multiset().count(ranked[k]) > 0);
    assert(listed.contains(ranked[k])) by {
        assert(listed.to_multiset().count(ranked[k]) > 0);
    }
    let at = choose|at: int| 0 <= at < listed.len() && listed[at] == ranked[k];
    assert(listed[at] == (counts[at].0, counts[at].1 as usize));
    metrics::a_tally_counts_every_name(names, counts[at].0);
    a_place_gives_the_listed_count(counts, at);
    generators_are_filtered(runs, counts[at].0);
    occurrences_are_bounded(names, counts[at].0);
    if k < l < ranked.len() {
        assert(leq(ranked[k], ranked[l]));
        text::comes_before_total(ranked[k].0, ranked[l].0);
        if ranked[k].0 == ranked[l].0 && ranked[k].1 == ranked[l].1 {
            assert(listed.no_duplicates()) by {
                assert forall|i: int, j: int|
                    0 <= i < listed.len() && 0 <= j < listed.len() && i != j implies listed[i]
                    != listed[j] by {
                    metrics::a_tally_counts_every_name(names, counts[i].0);
                    text::comes_before_irreflexive(counts[i].0);
                    assert(listed[i].0 == counts[i].0 && listed[j].0 == counts[j].0);
                    if i < j {
                        assert(text::comes_before(counts[i].0, counts[j].0));
                    } else {
                        assert(text::comes_before(counts[j].0, counts[i].0));
                    }
                }
            }
            listed.lemma_multiset_has_no_duplicates();
            two_places_are_two_copies(ranked, k, l);
            assert(listed.to_multiset().contains(ranked[k]));
        }
    }
    if k < 20 {
        let tail_head =
            "# HELP qcg_generator_runs_total Number of durable runs per generator (top 20 by run count).\n# TYPE qcg_generator_runs_total gauge\n"@;
        assert(tail_head.len() > 0 && tail_head.last() == '\n') by {
            reveal_strlit(
                "# HELP qcg_generator_runs_total Number of durable runs per generator (top 20 by run count).\n# TYPE qcg_generator_runs_total gauge\n",
            );
        }
        let body = metrics::scrape(runs, ranked);
        let tail = metrics::generator_samples(metrics::top(ranked));
        let start = body.take(body.len() - tail.len());
        assert(start + tail =~= body);
        assert(start.last() == tail_head.last());
        a_generator_sample_is_a_line(start, metrics::top(ranked), k);
    }
}

/// An escaped label is made of its characters one by one: a backslash is
/// doubled, a quotation mark gets a backslash, a line break becomes a
/// backslash and an `n`, and any other character stays.
pub proof fn labels_are_escaped_character_by_character(s: Seq<char>, t: Seq<char>, c: char)
    ensures
        metrics::escaped(s + t) == metrics::escaped(s) + metrics::escaped(t),
        metrics::escaped(seq!['\\']) == seq!['\\', '\\'],
        metrics::escaped(seq!['"']) == seq!['\\', '"'],
        metrics::escaped(seq!['\n']) == seq!['\\', 'n'],
        c != '\\' && c != '"' && c != '\n' ==> metrics::escaped(seq![c]) == seq![c],
        metrics::escaped(Seq::empty()) == Seq::<char>::empty(),
    decreases s.len(),
{
    reveal_with_fuel(metrics::escaped, 3);
    assert(seq!['\\'].skip(1) =~= Seq::<char>::empty());
    assert(seq!['"'].skip(1) =~= Seq::<char>::empty());
    assert(seq!['\n'].skip(1) =~= Seq::<char>::empty());
    assert(seq![c].skip(1) =~= Seq::<char>::empty());
    assert(metrics::escaped(seq!['\\']) =~= seq!['\\', '\\']);
    assert(metrics::escaped(seq!['"']) =~= seq!['\\', '"']);
    assert(metrics::escaped(seq!['\n']) =~= seq!['\\', 'n']);
    if s.len() == 0 {
        assert(s + t =~= t);
        assert(metrics::escaped(s) + metrics::escaped(t) =~= metrics::escaped(t));
    } else {
        labels_are_escaped_character_by_character(s.skip(1), t, c);
        assert((s + t).skip(1) =~= s.skip(1) + t);
        assert((s + t)[0] == s[0]);
        assert(metrics::escaped(s + t) =~= metrics::escaped_char(s[0]) + metrics::escaped(s.skip(1))
            + metrics::escaped(t));
    }
    if c != '\\' && c != '"' && c != '\n' {
        assert(metrics::escaped(seq![c]) =~= seq![c]);
    }
}

proof fn a_line_stays(body: Seq<char>, more: Seq<char>, line: Seq<char>)
    requires
        has_line(body, line),
    ensures
        has_line(body + more, line),
{
    let (before, after) = choose|before: Seq<char>, after: Seq<char>|
        body == #[trigger] (before + "\n"@ + line + "\n"@ + after);
    assert(body + more =~= before + "\n"@ + line + "\n"@ + (after + more));
}

proof fn a_gauge_has_its_line(before: Seq<char>, name: Seq<char>, help: Seq<char>, count: nat)
    ensures
        has_line(before + metrics::gauge(name, help, count), name + " "@ + text::decimal(count)),
{
    reveal_strlit(" gauge\n");
    reveal_strlit("\n");
    let head = before + ("# HELP "@ + name + " "@ + help + "\n# TYPE "@ + name + " gauge\n"@.take(
        6,
    ));
    assert(" gauge\n"@ =~= " gauge\n"@.take(6) + "\n"@);
    let line = name + " "@ + text::decimal(count);
    assert(before + metrics::gauge(name, help, count) =~= head + "\n"@ + line + "\n"@
        + Seq::empty());
}

proof fn phases_are_filtered(runs: Seq<RunFact>)
    ensures
        metrics::in_phase(runs, RunPhase::Waiting) == runs_in(runs, RunPhase::Waiting),
        metrics::in_phase(runs, RunPhase::Confirming) == runs_in(runs, RunPhase::Confirming),
        metrics::in_phase(runs, RunPhase::Queued) == runs_in(runs, RunPhase::Queued),
        metrics::in_phase(runs, RunPhase::Queued) + metrics::in_phase(runs, RunPhase::Running)
            == runs.filter(
            |r: RunFact| r.phase == RunPhase::Queued || r.phase == RunPhase::Running,
        ).len(),
    decreases runs.len(),
{
    reveal(Seq::filter);
    if runs.len() > 0 {
        phases_are_filtered(runs.drop_last());
    }
}

proof fn states_are_filtered(runs: Seq<RunFact>, name: Seq<char>)
    ensures
        metrics::occurrences(metrics::states_of(runs), name) == runs_with_state(runs, name),
    decreases runs.len(),
{
    reveal(Seq::filter);
    if runs.len() > 0 {
        states_are_filtered(runs.drop_last(), name);
        assert(metrics::states_of(runs).drop_last() =~= metrics::states_of(runs.drop_last()));
    }
}

proof fn generators_are_filtered(runs: Seq<RunFact>, name: Seq<char>)
    ensures
        metrics::occurrences(metrics::generators_of(runs), name) == runs_of(runs, name),
    decreases runs.len(),
{
    reveal(Seq::filter);
    if runs.len() > 0 {
        generators_are_filtered(runs.drop_last(), name);
        assert(metrics::generators_of(runs).drop_last() =~= metrics::generators_of(
            runs.drop_last(),
        ));
    }
}

proof fn occurrences_are_bounded(names: Seq<Seq<char>>, name: Seq<char>)
    ensures
        metrics::occurrences(names, name) <= names.len(),
    decreases names.len(),
{
    if names.len() > 0 {
        occurrences_are_bounded(names.drop_last(), name);
    }
}

proof fn an_occurring_name_occurs(names: Seq<Seq<char>>, i: int)
    requires
        0 <= i < names.len(),
    ensures
        metrics::occurrences(names, names[i]) > 0,
    decreases names.len(),
{
    if i < names.len() - 1 {
        an_occurring_name_occurs(names.drop_last(), i);
    }
}

proof fn a_name_that_occurs_has_a_place(names: Seq<Seq<char>>, name: Seq<char>)
    requires
        metrics::occurrences(names, name) > 0,
    ensures
        names.contains(name),
    decreases names.len(),
{
    if names.last() == name {
        assert(names[names.len() - 1] == name);
    } else {
        a_name_that_occurs_has_a_place(names.drop_last(), name);
        let i = choose|i: int| 0 <= i < names.drop_last().len() && names.drop_last()[i] == name;
        assert(names[i] == name);
    }
}

proof fn a_listed_name_has_a_place(counts: Seq<metrics::Count>, name: Seq<char>) -> (k: int)
    requires
        metrics::listed_count(counts, name) > 0,
    ensures
        0 <= k < counts.len(),
        counts[k] == (name, metrics::listed_count(counts, name)),
    decreases counts.len(),
{
    if counts.last().0 == name {
        counts.len() - 1
    } else {
        a_listed_name_has_a_place(counts.drop_last(), name)
    }
}

proof fn a_place_gives_the_listed_count(counts: Seq<metrics::Count>, k: int)
    requires
        metrics::distinct_names(counts),
        0 <= k < counts.len(),
    ensures
        metrics::listed_count(counts, counts[k].0) == counts[k].1,
    decreases counts.len(),
{
    if k < counts.len() - 1 {
        text::comes_before_irreflexive(counts[k].0);
        assert(text::comes_before(counts[k].0, counts[counts.len() - 1].0));
        assert(metrics::distinct_names(counts.drop_last())) by {
            assert forall|i: int, j: int|
                0 <= i < j < counts.drop_last().len() implies text::comes_before(
                (#[trigger] counts.drop_last()[i]).0,
                (#[trigger] counts.drop_last()[j]).0,
            ) by {
                assert(text::comes_before(counts[i].0, counts[j].0));
            }
        }
        a_place_gives_the_listed_count(counts.drop_last(), k);
    }
}

proof fn bumping_keeps_counts_positive(counts: Seq<metrics::Count>, name: Seq<char>)
    requires
        forall|i: int| 0 <= i < counts.len() ==> (#[trigger] counts[i]).1 > 0,
    ensures
        forall|i: int|
            0 <= i < metrics::bumped(counts, name).len() ==> (#[trigger] metrics::bumped(
                counts,
                name,
            )[i]).1 > 0,
    decreases counts.len(),
{
    if counts.len() > 0 && counts.last().0 != name && !text::comes_before(counts.last().0, name) {
        assert forall|i: int| 0 <= i < counts.drop_last().len() implies (
        #[trigger] counts.drop_last()[i]).1 > 0 by {
            assert(counts[i].1 > 0);
        }
        bumping_keeps_counts_positive(counts.drop_last(), name);
        assert(counts[counts.len() - 1].1 > 0);
        let rest = metrics::bumped(counts.drop_last(), name);
        assert forall|i: int| 0 <= i < rest.push(counts.last()).len() implies (#[trigger] rest.push(
            counts.last(),
        )[i]).1 > 0 by {
            if i < rest.len() {
                assert(rest[i].1 > 0);
            }
        }
    } else if counts.len() > 0 {
        let front = counts.drop_last();
        let whole = metrics::bumped(counts, name);
        assert forall|i: int| 0 <= i < whole.len() implies (#[trigger] whole[i]).1 > 0 by {
            if i < front.len() {
                assert(whole[i] == counts[i]);
            } else if i < counts.len() && counts.last().0 != name {
                assert(whole[i] == counts[i]);
            }
        }
    }
}

proof fn tallied_counts_are_positive(names: Seq<Seq<char>>)
    ensures
        forall|i: int|
            0 <= i < metrics::tally(names).len() ==> (#[trigger] metrics::tally(names)[i]).1 > 0,
    decreases names.len(),
{
    if names.len() > 0 {
        tallied_counts_are_positive(names.drop_last());
        bumping_keeps_counts_positive(metrics::tally(names.drop_last()), names.last());
    }
}

proof fn a_tally_lists_each_name_once(names: Seq<Seq<char>>)
    ensures
        metrics::tally(names).len() == names.to_set().len(),
        forall|i: int|
            0 <= i < metrics::tally(names).len() ==> (#[trigger] metrics::tally(names)[i]).1 > 0,
{
    let counts = metrics::tally(names);
    let listed = counts.map_values(|c: metrics::Count| c.0);
    tallied_counts_are_positive(names);
    metrics::a_tally_counts_every_name(names, Seq::empty());
    assert(listed.no_duplicates()) by {
        assert forall|i: int, j: int|
            0 <= i < listed.len() && 0 <= j < listed.len() && i != j implies listed[i]
            != listed[j] by {
            text::comes_before_irreflexive(counts[i].0);
            if i < j {
                assert(text::comes_before(counts[i].0, counts[j].0));
            } else {
                assert(text::comes_before(counts[j].0, counts[i].0));
            }
        }
    }
    listed.unique_seq_to_set();
    assert(listed.to_set() =~= names.to_set()) by {
        assert forall|name: Seq<char>| listed.to_set().contains(name) <==> names.to_set().contains(
            name,
        ) by {
            metrics::a_tally_counts_every_name(names, name);
            if listed.contains(name) {
                let k = choose|k: int| 0 <= k < listed.len() && listed[k] == name;
                a_place_gives_the_listed_count(counts, k);
                assert(counts[k].1 > 0);
                a_name_that_occurs_has_a_place(names, name);
            }
            if names.contains(name) {
                let i = choose|i: int| 0 <= i < names.len() && names[i] == name;
                an_occurring_name_occurs(names, i);
                let k = a_listed_name_has_a_place(counts, name);
                assert(listed[k] == name);
            }
        }
    }
}

proof fn a_state_sample_is_a_line(start: Seq<char>, counts: Seq<metrics::Count>, k: int)
    requires
        start.len() > 0,
        start.last() == '\n',
        0 <= k < counts.len(),
    ensures
        has_line(
            start + metrics::state_samples(counts),
            "qcg_runs_total{state=\""@ + counts[k].0 + "\"} "@ + text::decimal(counts[k].1),
        ),
    decreases counts.len(),
{
    let front = counts.drop_last();
    let last = metrics::labelled(
        "qcg_runs_total"@,
        "state"@,
        counts.last().0,
        counts.last().1,
    );
    let line = "qcg_runs_total{state=\""@ + counts[k].0 + "\"} "@ + text::decimal(counts[k].1);
    assert(start + metrics::state_samples(counts) =~= start + metrics::state_samples(front)
        + last);
    if k < counts.len() - 1 {
        a_state_sample_is_a_line(start, front, k);
        assert(front[k] == counts[k]);
        a_line_stays(start + metrics::state_samples(front), last, line);
    } else {
        state_samples_end_their_line(start, front);
        let whole = start + metrics::state_samples(front);
        reveal_strlit("\n");
        assert("qcg_runs_total"@ + "{"@ + "state"@ + "=\""@ =~= "qcg_runs_total{state=\""@) by {
            reveal_strlit("qcg_runs_total");
            reveal_strlit("{");
            reveal_strlit("state");
            reveal_strlit("=\"");
            reveal_strlit("qcg_runs_total{state=\"");
        }
        assert(whole =~= whole.drop_last() + "\n"@);
        assert(whole + last =~= whole.drop_last() + "\n"@ + line + "\n"@ + Seq::empty());
    }
}

proof fn state_samples_end_their_line(start: Seq<char>, counts: Seq<metrics::Count>)
    requires
        start.len() > 0,
        start.last() == '\n',
    ensures
        (start + metrics::state_samples(counts)).last() == '\n',
{
    reveal_strlit("\n");
    if counts.len() == 0 {
        assert(start + metrics::state_samples(counts) =~= start);
    } else {
        let last = metrics::labelled(
            "qcg_runs_total"@,
            "state"@,
            counts.last().0,
            counts.last().1,
        );
        assert(last.len() > 0 && last.last() == '\n');
    }
}

proof fn a_generator_sample_is_a_line(start: Seq<char>, ranked: Seq<metrics::Ranked>, k: int)
    requires
        start.len() > 0,
        start.last() == '\n',
        0 <= k < ranked.len(),
    ensures
        has_line(
            start + metrics::generator_samples(ranked),
            "qcg_generator_runs_total{generator=\""@ + metrics::escaped(ranked[k].0) + "\"} "@
                + text::decimal(ranked[k].1 as nat),
        ),
    decreases ranked.len(),
{
    let front = ranked.drop_last();
    let last = metrics::labelled(
        "qcg_generator_runs_total"@,
        "generator"@,
        metrics::escaped(ranked.last().0),
        ranked.last().1 as nat,
    );
    let line = "qcg_generator_runs_total{generator=\""@ + metrics::escaped(ranked[k].0) + "\"} "@
        + text::decimal(ranked[k].1 as nat);
    assert(start + metrics::generator_samples(ranked) =~= start + metrics::generator_samples(front)
        + last);
    if k < ranked.len() - 1 {
        a_generator_sample_is_a_line(start, front, k);
        assert(front[k] == ranked[k]);
        a_line_stays(start + metrics::generator_samples(front), last, line);
    } else {
        generator_samples_end_their_line(start, front);
        let whole = start + metrics::generator_samples(front);
        reveal_strlit("\n");
        assert("qcg_generator_runs_total"@ + "{"@ + "generator"@ + "=\""@
            =~= "qcg_generator_runs_total{generator=\""@) by {
            reveal_strlit("qcg_generator_runs_total");
            reveal_strlit("{");
            reveal_strlit("generator");
            reveal_strlit("=\"");
            reveal_strlit("qcg_generator_runs_total{generator=\"");
        }
        assert(whole =~= whole.drop_last() + "\n"@);
        assert(whole + last =~= whole.drop_last() + "\n"@ + line + "\n"@ + Seq::empty());
    }
}

proof fn generator_samples_end_their_line(start: Seq<char>, ranked: Seq<metrics::Ranked>)
    requires
        start.len() > 0,
        start.last() == '\n',
    ensures
        (start + metrics::generator_samples(ranked)).last() == '\n',
{
    reveal_strlit("\n");
    if ranked.len() == 0 {
        assert(start + metrics::generator_samples(ranked) =~= start);
    } else {
        let last = metrics::labelled(
            "qcg_generator_runs_total"@,
            "generator"@,
            metrics::escaped(ranked.last().0),
            ranked.last().1 as nat,
        );
        assert(last.len() > 0 && last.last() == '\n');
    }
}

proof fn two_places_are_two_copies(ranked: Seq<metrics::Ranked>, k: int, l: int)
    requires
        0 <= k < l < ranked.len(),
        ranked[k] == ranked[l],
    ensures
        ranked.to_multiset().count(ranked[k]) >= 2,
{
    let rest = ranked.remove(k);
    ranked.to_multiset_ensures();
    rest.to_multiset_ensures();
    assert(rest[l - 1] == ranked[l]);
    assert(rest.contains(ranked[k]));
    assert(rest.to_multiset() =~= ranked.to_multiset().remove(ranked[k]));
    assert(rest.to_multiset().count(ranked[k]) > 0);
}

} // verus!

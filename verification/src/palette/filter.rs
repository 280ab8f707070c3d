//! Fuzzy command filtering: scoring, three-tier ranking and highlight
//! indices.
//!
//! The scoring primitive is skim's V2 matcher (smart case). Ranking is
//! three-tier: name matches beat description matches beat keyword matches;
//! within a tier the higher score ranks first; ties keep registration order.

use vstd::prelude::*;

use fuzzy_matcher::skim::SkimMatcherV2;
use fuzzy_matcher::FuzzyMatcher;

use crate::command::{command_views, Command, CommandView};
use crate::strings::{str_trim, take_chars, take_chars_string, trim};

verus! {

/// Maximum query length in characters: the matcher never sees a longer
/// pattern.
pub const MAX_QUERY_LEN: usize = 64;

/// Score offset applied to description-tier matches so every name match ranks
/// above every description match regardless of raw score.
pub const DESCRIPTION_TIER_OFFSET: i64 = 100_000;

/// Score offset for keyword-tier matches (below the description tier).
pub const KEYWORD_TIER_OFFSET: i64 = 200_000;

/// What skim's V2 matcher (smart case) answers for `pattern` against
/// `choice`: `None` when the pattern is no subsequence of the choice, else
/// the score and the char positions of the hits.
pub uninterp spec fn skim_fuzzy_indices(choice: Seq<char>, pattern: Seq<char>) -> Option<(i64, Seq<usize>)>;

/// The score skim's V2 matcher (smart case) gives `pattern` against
/// `choice` when no hit positions are asked for (`None`: no match).
pub uninterp spec fn skim_fuzzy_score(choice: Seq<char>, pattern: Seq<char>) -> Option<i64>;

/// A matcher answer with its hit positions taken as a sequence.
pub open spec fn hit_view(r: Option<(i64, Vec<usize>)>) -> Option<(i64, Seq<usize>)> {
    match r {
        Some((s, v)) => Some((s, v@)),
        None => None,
    }
}

/// Binding to `SkimMatcherV2::fuzzy_indices` on a smart-case matcher. The
/// answer is a function of the two strings alone (the matcher's caches only
/// hold scratch memory); its score is an `i32` widened to `i64`.
#[verifier::external_body]
fn skim_indices(choice: &str, pattern: &str) -> (r: Option<(i64, Vec<usize>)>)
    ensures
        hit_view(r) == skim_fuzzy_indices(choice@, pattern@),
        r matches Some((s, _)) ==> i32::MIN <= s <= i32::MAX,
{
    SkimMatcherV2::default().smart_case().fuzzy_indices(choice, pattern)
}

/// Binding to `SkimMatcherV2::fuzzy_match` on a smart-case matcher. The
/// answer is a function of the two strings alone; the score is an `i32`
/// widened to `i64`.
#[verifier::external_body]
fn skim_score(choice: &str, pattern: &str) -> (r: Option<i64>)
    ensures
        r == skim_fuzzy_score(choice@, pattern@),
        r matches Some(s) ==> i32::MIN <= s <= i32::MAX,
{
    SkimMatcherV2::default().smart_case().fuzzy_match(choice, pattern)
}

/// One ranked match: the command index into the snapshotted list, its score,
/// and the char-position highlight indices for name and description.
#[derive(Clone, Debug, PartialEq, Eq)]
pub struct Match {
    pub cmd_index: usize,
    /// Skim score with the tier offset applied (sort key).
    pub score: i64,
    /// Char positions of the query hits in `Command::name` (empty = none).
    pub name_indices: Vec<usize>,
    /// Char positions of the query hits in `Command::description` (empty = none).
    pub description_indices: Vec<usize>,
}

/// The plain data of a [`Match`].
pub struct MatchView {
    pub cmd_index: int,
    pub score: int,
    pub name_indices: Seq<usize>,
    pub description_indices: Seq<usize>,
}

impl View for Match {
    type V = MatchView;

    open spec fn view(&self) -> MatchView {
        MatchView {
            cmd_index: self.cmd_index as int,
            score: self.score as int,
            name_indices: self.name_indices@,
            description_indices: self.description_indices@,
        }
    }
}

/// The views of a list of matches.
pub open spec fn match_views(s: Seq<Match>) -> Seq<MatchView> {
    s.map_values(|m: Match| m@)
}

/// The tier of a match, read from its index fields: 0 with name hits, 1 with
/// description hits only, 2 otherwise (keyword matches).
pub open spec fn tier(m: MatchView) -> int {
    if m.name_indices.len() > 0 {
        0
    } else if m.description_indices.len() > 0 {
        1
    } else {
        2
    }
}

/// The ranking order: tier ascending, then score descending, then
/// registration order.
pub open spec fn ranks_before(a: MatchView, b: MatchView) -> bool {
    ||| tier(a) < tier(b)
    ||| tier(a) == tier(b) && a.score > b.score
    ||| tier(a) == tier(b) && a.score == b.score && a.cmd_index < b.cmd_index
}

/// True when every match of `s` ranks before every later one.
pub open spec fn is_ranked(s: Seq<MatchView>) -> bool {
    forall|i: int, j: int| 0 <= i < j < s.len() ==> ranks_before(#[trigger] s[i], #[trigger] s[j])
}

/// The larger of two optional scores (`None` counts as no score).
pub open spec fn max_score(a: Option<i64>, b: Option<i64>) -> Option<i64> {
    match (a, b) {
        (None, _) => b,
        (_, None) => a,
        (Some(x), Some(y)) => Some(if x >= y { x } else { y }),
    }
}

/// The best keyword score of `pattern` over `keywords` (`None`: no keyword
/// matches).
pub open spec fn best_keyword_score(keywords: Seq<Seq<char>>, pattern: Seq<char>) -> Option<i64>
    decreases keywords.len(),
{
    if keywords.len() == 0 {
        None
    } else {
        max_score(
            best_keyword_score(keywords.drop_last(), pattern),
            skim_fuzzy_score(keywords.last(), pattern),
        )
    }
}

/// The keyword score of a command is the best of the matcher's answers over
/// all of its keywords: every keyword that matches scores at most the
/// result, the result is some keyword's score, and there is no result
/// exactly when no keyword matches.
pub proof fn lemma_best_keyword_is_max(keywords: Seq<Seq<char>>, pattern: Seq<char>)
    ensures
        forall|j: int|
            0 <= j < keywords.len() && #[trigger] skim_fuzzy_score(keywords[j], pattern) is Some
                ==> (best_keyword_score(keywords, pattern) matches Some(t) && t >= skim_fuzzy_score(
                keywords[j],
                pattern,
            )->0),
        best_keyword_score(keywords, pattern) matches Some(t) ==> exists|j: int|
            0 <= j < keywords.len() && #[trigger] skim_fuzzy_score(keywords[j], pattern) == Some(t),
        best_keyword_score(keywords, pattern) is None <==> forall|j: int|
            0 <= j < keywords.len() ==> #[trigger] skim_fuzzy_score(keywords[j], pattern) is None,
    decreases keywords.len(),
{
    if keywords.len() > 0 {
        let init = keywords.drop_last();
        lemma_best_keyword_is_max(init, pattern);
        let last = keywords.len() - 1;
        assert forall|j: int| 0 <= j < init.len() implies keywords[j] == #[trigger] init[j] by {}
        let prev = best_keyword_score(init, pattern);
        let cur = skim_fuzzy_score(keywords[last], pattern);
        assert(best_keyword_score(keywords, pattern) == max_score(prev, cur));
        if let Some(t) = best_keyword_score(keywords, pattern) {
            if prev == Some(t) {
                let j = choose|j: int| 0 <= j < init.len() && #[trigger] skim_fuzzy_score(init[j], pattern) == Some(t);
                assert(skim_fuzzy_score(keywords[j], pattern) == Some(t));
            } else {
                assert(skim_fuzzy_score(keywords[last], pattern) == Some(t));
            }
        }
        assert forall|j: int|
            0 <= j < keywords.len() && #[trigger] skim_fuzzy_score(keywords[j], pattern) is Some
            implies (best_keyword_score(keywords, pattern) matches Some(t) && t >= skim_fuzzy_score(
            keywords[j],
            pattern,
        )->0) by {
            if j < last {
                assert(skim_fuzzy_score(init[j], pattern) is Some);
            }
        }
        if best_keyword_score(keywords, pattern) is None {
            assert forall|j: int| 0 <= j < keywords.len() implies #[trigger] skim_fuzzy_score(keywords[j], pattern) is None by {
                if j < last {
                    assert(skim_fuzzy_score(init[j], pattern) is None);
                }
            }
        }
    }
}

/// The match at index `i` made of the matcher's answers for one command: a
/// name hit (which also carries the description's hit positions), else a
/// description hit, else the best keyword hit; `None` when nothing matched.
pub open spec fn combine_hits(
    i: int,
    name_hit: Option<(i64, Seq<usize>)>,
    description_hit: Option<(i64, Seq<usize>)>,
    keyword_best: Option<i64>,
) -> Option<MatchView> {
    match name_hit {
        Some((s, inds)) => Some(
            MatchView {
                cmd_index: i,
                score: s as int,
                name_indices: inds,
                description_indices: match description_hit {
                    Some((_, d)) => d,
                    None => Seq::empty(),
                },
            },
        ),
        None => match description_hit {
            Some((s, d)) => Some(
                MatchView {
                    cmd_index: i,
                    score: s - DESCRIPTION_TIER_OFFSET,
                    name_indices: Seq::empty(),
                    description_indices: d,
                },
            ),
            None => match keyword_best {
                Some(s) => Some(
                    MatchView {
                        cmd_index: i,
                        score: s - KEYWORD_TIER_OFFSET,
                        name_indices: Seq::empty(),
                        description_indices: Seq::empty(),
                    },
                ),
                None => None,
            },
        },
    }
}

/// The match of command `c` (at index `i`) against a non-empty `pattern`,
/// from the matcher's answers for its name, description and keywords.
pub open spec fn candidate(c: CommandView, i: int, pattern: Seq<char>) -> Option<MatchView> {
    combine_hits(
        i,
        skim_fuzzy_indices(c.name, pattern),
        skim_fuzzy_indices(c.description, pattern),
        best_keyword_score(c.keywords, pattern),
    )
}

/// `s` with `m` inserted before the first entry that `m` ranks before.
pub open spec fn insert_ranked(s: Seq<MatchView>, m: MatchView) -> Seq<MatchView>
    decreases s.len(),
{
    if s.len() == 0 {
        seq![m]
    } else if ranks_before(m, s[0]) {
        seq![m] + s
    } else {
        seq![s[0]] + insert_ranked(s.drop_first(), m)
    }
}

/// The ranked matches of the first `n` commands against `pattern`.
pub open spec fn ranked(cmds: Seq<CommandView>, pattern: Seq<char>, n: nat) -> Seq<MatchView>
    decreases n,
{
    if n == 0 {
        Seq::empty()
    } else {
        let prev = ranked(cmds, pattern, (n - 1) as nat);
        match candidate(cmds[n - 1], n - 1, pattern) {
            Some(m) => insert_ranked(prev, m),
            None => prev,
        }
    }
}

/// The pattern the matcher sees for `query`: trimmed, then cut to
/// [`MAX_QUERY_LEN`] characters.
pub open spec fn effective_query(query: Seq<char>) -> Seq<char> {
    take_chars(trim(query), MAX_QUERY_LEN as nat)
}

/// The match of command `i` for `query`: with a blank query every command
/// matches with score 0 and no highlight; otherwise [`candidate`].
pub open spec fn query_match(cmds: Seq<CommandView>, query: Seq<char>, i: int) -> Option<MatchView> {
    if trim(query).len() == 0 {
        Some(MatchView { cmd_index: i, score: 0, name_indices: Seq::empty(), description_indices: Seq::empty() })
    } else {
        candidate(cmds[i], i, effective_query(query))
    }
}

/// The result of filtering `cmds` by `query`: with a blank query every
/// command in registration order; otherwise the matching commands ranked.
pub open spec fn filter_spec(cmds: Seq<CommandView>, query: Seq<char>) -> Seq<MatchView> {
    if trim(query).len() == 0 {
        Seq::new(
            cmds.len(),
            |i: int| MatchView { cmd_index: i, score: 0, name_indices: Seq::empty(), description_indices: Seq::empty() },
        )
    } else {
        ranked(cmds, effective_query(query), cmds.len())
    }
}

/// The command indices of a list of matches.
pub open spec fn match_indices(s: Seq<MatchView>) -> Seq<int> {
    s.map_values(|m: MatchView| m.cmd_index)
}

/// Inserting at the first entry that `m` ranks before is [`insert_ranked`].
proof fn lemma_insert_ranked_at(s: Seq<MatchView>, m: MatchView, k: int)
    requires
        0 <= k <= s.len(),
        forall|j: int| 0 <= j < k ==> !ranks_before(m, #[trigger] s[j]),
        k == s.len() || ranks_before(m, s[k]),
    ensures
        insert_ranked(s, m) == s.insert(k, m),
    decreases s.len(),
{
    if s.len() == 0 {
        assert(s.insert(k, m) =~= seq![m]);
    } else if k == 0 {
        assert(s.insert(k, m) =~= seq![m] + s);
    } else {
        let t = s.drop_first();
        assert forall|j: int| 0 <= j < k - 1 implies !ranks_before(m, #[trigger] t[j]) by {
            assert(t[j] == s[j + 1]);
        }
        if k < s.len() {
            assert(t[k - 1] == s[k]);
        }
        lemma_insert_ranked_at(t, m, k - 1);
        assert(s.insert(k, m) =~= seq![s[0]] + t.insert(k - 1, m));
    }
}

/// Inserting keeps exactly the old entries and adds `m`.
proof fn lemma_insert_ranked_contents(s: Seq<MatchView>, m: MatchView)
    ensures
        insert_ranked(s, m).len() == s.len() + 1,
        forall|x: MatchView| #[trigger] insert_ranked(s, m).contains(x) <==> (s.contains(x) || x == m),
    decreases s.len(),
{
    if s.len() == 0 {
        assert forall|x: MatchView| insert_ranked(s, m).contains(x) <==> (s.contains(x) || x == m) by {
            if insert_ranked(s, m).contains(x) {
                assert(insert_ranked(s, m)[0] == m);
            }
            if x == m {
                assert(insert_ranked(s, m)[0] == m);
            }
        }
    } else if ranks_before(m, s[0]) {
        let r = seq![m] + s;
        assert forall|x: MatchView| r.contains(x) <==> (s.contains(x) || x == m) by {
            if r.contains(x) {
                let j = choose|j: int| 0 <= j < r.len() && r[j] == x;
                if j > 0 {
                    assert(s[j - 1] == x);
                }
            }
            if s.contains(x) {
                let j = choose|j: int| 0 <= j < s.len() && s[j] == x;
                assert(r[j + 1] == x);
            }
            if x == m {
                assert(r[0] == m);
            }
        }
    } else {
        let t = s.drop_first();
        lemma_insert_ranked_contents(t, m);
        let r = seq![s[0]] + insert_ranked(t, m);
        assert forall|x: MatchView| r.contains(x) <==> (s.contains(x) || x == m) by {
            if r.contains(x) {
                let j = choose|j: int| 0 <= j < r.len() && r[j] == x;
                if j == 0 {
                    assert(s[0] == x);
                } else {
                    assert(insert_ranked(t, m)[j - 1] == x);
                    assert(insert_ranked(t, m).contains(x));
                    if t.contains(x) {
                        let l = choose|l: int| 0 <= l < t.len() && t[l] == x;
                        assert(s[l + 1] == x);
                    }
                }
            }
            if s.contains(x) {
                let j = choose|j: int| 0 <= j < s.len() && s[j] == x;
                if j == 0 {
                    assert(r[0] == x);
                } else {
                    assert(t[j - 1] == x);
                    assert(t.contains(x));
                    assert(insert_ranked(t, m).contains(x));
                    let l = choose|l: int| 0 <= l < insert_ranked(t, m).len() && insert_ranked(t, m)[l] == x;
                    assert(r[l + 1] == x);
                }
            }
            if x == m {
                assert(insert_ranked(t, m).contains(m));
                let l = choose|l: int| 0 <= l < insert_ranked(t, m).len() && insert_ranked(t, m)[l] == m;
                assert(r[l + 1] == m);
            }
        }
    }
}

/// `ranks_before` is a strict order that is total on matches of different
/// commands.
proof fn lemma_ranks_before_order(a: MatchView, b: MatchView, c: MatchView)
    ensures
        !ranks_before(a, a),
        ranks_before(a, b) ==> !ranks_before(b, a),
        ranks_before(a, b) && ranks_before(b, c) ==> ranks_before(a, c),
        a.cmd_index != b.cmd_index ==> ranks_before(a, b) || ranks_before(b, a),
{
}

/// Inserting a match whose command is not yet listed keeps a list ranked.
proof fn lemma_insert_ranked_keeps_order(s: Seq<MatchView>, m: MatchView)
    requires
        is_ranked(s),
        forall|j: int| 0 <= j < s.len() ==> (#[trigger] s[j]).cmd_index != m.cmd_index,
    ensures
        is_ranked(insert_ranked(s, m)),
    decreases s.len(),
{
    if s.len() == 0 {
    } else if ranks_before(m, s[0]) {
        let r = seq![m] + s;
        assert forall|i: int, j: int| 0 <= i < j < r.len() implies ranks_before(#[trigger] r[i], #[trigger] r[j]) by {
            if i == 0 {
                if j > 1 {
                    assert(ranks_before(s[0], s[j - 1]));
                    lemma_ranks_before_order(m, s[0], s[j - 1]);
                }
            } else {
                assert(ranks_before(s[i - 1], s[j - 1]));
            }
        }
    } else {
        let t = s.drop_first();
        assert forall|i: int, j: int| 0 <= i < j < t.len() implies ranks_before(#[trigger] t[i], #[trigger] t[j]) by {
            assert(ranks_before(s[i + 1], s[j + 1]));
        }
        assert forall|j: int| 0 <= j < t.len() implies (#[trigger] t[j]).cmd_index != m.cmd_index by {
            assert(s[j + 1].cmd_index != m.cmd_index);
        }
        lemma_insert_ranked_keeps_order(t, m);
        lemma_insert_ranked_contents(t, m);
        lemma_ranks_before_order(m, s[0], m);
        assert(ranks_before(s[0], m));
        let u = insert_ranked(t, m);
        let r = seq![s[0]] + u;
        assert forall|i: int, j: int| 0 <= i < j < r.len() implies ranks_before(#[trigger] r[i], #[trigger] r[j]) by {
            if i == 0 {
                let x = u[j - 1];
                assert(u.contains(x));
                if x != m {
                    assert(t.contains(x));
                    let l = choose|l: int| 0 <= l < t.len() && t[l] == x;
                    assert(ranks_before(s[0], s[l + 1]));
                }
            } else {
                assert(ranks_before(u[i - 1], u[j - 1]));
            }
        }
    }
}

/// The ranked list of the first `n` commands holds exactly their candidates,
/// each at most once, in ranking order.
proof fn lemma_ranked(cmds: Seq<CommandView>, pattern: Seq<char>, n: nat)
    requires
        n <= cmds.len(),
    ensures
        is_ranked(ranked(cmds, pattern, n)),
        forall|j: int| 0 <= j < ranked(cmds, pattern, n).len() ==> 0 <= (#[trigger] ranked(cmds, pattern, n)[j]).cmd_index < n,
        forall|x: MatchView| #[trigger] ranked(cmds, pattern, n).contains(x) <==> (0 <= x.cmd_index < n && candidate(cmds[x.cmd_index], x.cmd_index, pattern) == Some(x)),
    decreases n,
{
    if n > 0 {
        let prev = ranked(cmds, pattern, (n - 1) as nat);
        lemma_ranked(cmds, pattern, (n - 1) as nat);
        match candidate(cmds[n - 1], n - 1, pattern) {
            Some(m) => {
                assert forall|j: int| 0 <= j < prev.len() implies (#[trigger] prev[j]).cmd_index != m.cmd_index by {}
                lemma_insert_ranked_keeps_order(prev, m);
                lemma_insert_ranked_contents(prev, m);
                let r = insert_ranked(prev, m);
                assert forall|j: int| 0 <= j < r.len() implies 0 <= (#[trigger] r[j]).cmd_index < n by {
                    assert(r.contains(r[j]));
                    if r[j] != m {
                        assert(prev.contains(r[j]));
                        let l = choose|l: int| 0 <= l < prev.len() && prev[l] == r[j];
                        assert(prev[l].cmd_index < n - 1);
                    }
                }
                assert forall|x: MatchView| #[trigger] r.contains(x) <==> (0 <= x.cmd_index < n && candidate(cmds[x.cmd_index], x.cmd_index, pattern) == Some(x)) by {
                    if r.contains(x) {
                        assert(prev.contains(x) || x == m);
                    }
                    if 0 <= x.cmd_index < n && candidate(cmds[x.cmd_index], x.cmd_index, pattern) == Some(x) {
                        if x.cmd_index < n - 1 {
                            assert(prev.contains(x));
                        }
                    }
                }
            },
            None => {
                assert forall|x: MatchView| #[trigger] prev.contains(x) <==> (0 <= x.cmd_index < n && candidate(cmds[x.cmd_index], x.cmd_index, pattern) == Some(x)) by {
                }
            },
        }
    }
}

/// Filtering ranks its result, and lists exactly the commands that match,
/// each once: a blank query lists every command in registration order.
pub proof fn lemma_filter_ranked(cmds: Seq<CommandView>, query: Seq<char>)
    ensures
        is_ranked(filter_spec(cmds, query)),
        forall|x: MatchView| filter_spec(cmds, query).contains(x) <==> (0 <= x.cmd_index < cmds.len() && query_match(cmds, query, x.cmd_index) == Some(x)),
{
    if trim(query).len() == 0 {
        let r = filter_spec(cmds, query);
        assert forall|x: MatchView| r.contains(x) <==> (0 <= x.cmd_index < cmds.len() && query_match(cmds, query, x.cmd_index) == Some(x)) by {
            if 0 <= x.cmd_index < cmds.len() && query_match(cmds, query, x.cmd_index) == Some(x) {
                assert(r[x.cmd_index] == x);
            }
        }
    } else {
        lemma_ranked(cmds, effective_query(query), cmds.len());
    }
}

/// Two queries with the same trimmed 64-character prefix filter alike: the
/// matcher never sees more of a query than that.
pub proof fn lemma_filter_sees_truncated_query(cmds: Seq<CommandView>, q1: Seq<char>, q2: Seq<char>)
    requires
        effective_query(q1) == effective_query(q2),
        trim(q1).len() > 0,
        trim(q2).len() > 0,
    ensures
        filter_spec(cmds, q1) == filter_spec(cmds, q2),
{
}

/// The tier of a match (0 name, 1 description, 2 keyword).
fn tier_of(m: &Match) -> (r: u8)
    ensures
        r == tier(m@),
{
    if m.name_indices.len() > 0 {
        0
    } else if m.description_indices.len() > 0 {
        1
    } else {
        2
    }
}

/// Whether `a` ranks before `b`.
fn ranks_before_exec(a: &Match, b: &Match) -> (r: bool)
    ensures
        r == ranks_before(a@, b@),
{
    let ta = tier_of(a);
    let tb = tier_of(b);
    ta < tb || (ta == tb && a.score > b.score) || (ta == tb && a.score == b.score && a.cmd_index
        < b.cmd_index)
}

/// The better of two matcher answers (`None` counts as no match).
pub fn better_score(a: Option<i64>, b: Option<i64>) -> (r: Option<i64>)
    ensures
        r == max_score(a, b),
{
    match (a, b) {
        (None, _) => b,
        (_, None) => a,
        (Some(x), Some(y)) => Some(if x >= y { x } else { y }),
    }
}

/// The best keyword score of `pattern` over `keywords`: the matcher's
/// answer for each keyword, folded with [`better_score`].
pub fn best_keyword(keywords: &Vec<&'static str>, pattern: &str) -> (r: Option<i64>)
    ensures
        r == best_keyword_score(crate::command::str_views(keywords@), pattern@),
        r matches Some(s) ==> i32::MIN <= s <= i32::MAX,
        forall|j: int|
            0 <= j < keywords@.len() && #[trigger] skim_fuzzy_score(keywords@[j]@, pattern@) is Some
                ==> (r matches Some(t) && t >= skim_fuzzy_score(keywords@[j]@, pattern@)->0),
        r is None <==> forall|j: int|
            0 <= j < keywords@.len() ==> #[trigger] skim_fuzzy_score(keywords@[j]@, pattern@) is None,
{
    let ghost kws = crate::command::str_views(keywords@);
    let mut best: Option<i64> = None;
    let mut i: usize = 0;
    while i < keywords.len()
        invariant
            i <= keywords@.len(),
            kws == crate::command::str_views(keywords@),
            best == best_keyword_score(kws.take(i as int), pattern@),
            best matches Some(s) ==> i32::MIN <= s <= i32::MAX,
        decreases keywords@.len() - i,
    {
        let s = skim_score(keywords[i], pattern);
        proof {
            assert(kws.take(i + 1).drop_last() =~= kws.take(i as int));
            assert(kws.take(i + 1).last() == keywords@[i as int]@);
        }
        best = better_score(best, s);
        i = i + 1;
    }
    proof {
        assert(kws.take(i as int) =~= kws);
        lemma_best_keyword_is_max(kws, pattern@);
        assert forall|j: int|
            0 <= j < keywords@.len() && #[trigger] skim_fuzzy_score(keywords@[j]@, pattern@) is Some
            implies (best matches Some(t) && t >= skim_fuzzy_score(keywords@[j]@, pattern@)->0) by {
            assert(kws[j] == keywords@[j]@);
            assert(skim_fuzzy_score(kws[j], pattern@) is Some);
        }
        if best is None {
            assert forall|j: int| 0 <= j < keywords@.len() implies #[trigger] skim_fuzzy_score(keywords@[j]@, pattern@) is None by {
                assert(kws[j] == keywords@[j]@);
                assert(skim_fuzzy_score(kws[j], pattern@) is None);
            }
        } else {
            let t = best->0;
            let j = choose|j: int| 0 <= j < kws.len() && #[trigger] skim_fuzzy_score(kws[j], pattern@) == Some(t);
            assert(kws[j] == keywords@[j]@);
            assert(skim_fuzzy_score(keywords@[j]@, pattern@) is Some);
        }
    }
    best
}

/// Whether a matcher score fits the `i32` the matcher computes in.
pub open spec fn score_in_range(s: i64) -> bool {
    i32::MIN <= s <= i32::MAX
}

/// Build the match at `cmd_index` from the matcher's answers for the
/// command's name, description and keywords: the name tier keeps the raw
/// score and both hit lists, the description tier is offset by
/// [`DESCRIPTION_TIER_OFFSET`], the keyword tier by [`KEYWORD_TIER_OFFSET`].
pub fn match_from_hits(
    cmd_index: usize,
    name_hit: Option<(i64, Vec<usize>)>,
    description_hit: Option<(i64, Vec<usize>)>,
    keyword_best: Option<i64>,
) -> (r: Option<Match>)
    requires
        name_hit matches Some((s, _)) ==> score_in_range(s),
        description_hit matches Some((s, _)) ==> score_in_range(s),
        keyword_best matches Some(s) ==> score_in_range(s),
    ensures
        r matches Some(m) ==> combine_hits(
            cmd_index as int,
            hit_view(name_hit),
            hit_view(description_hit),
            keyword_best,
        ) == Some(m@),
        r is None ==> combine_hits(
            cmd_index as int,
            hit_view(name_hit),
            hit_view(description_hit),
            keyword_best,
        ) is None,
{
    match name_hit {
        Some((s, inds)) => {
            let description_indices = match description_hit {
                Some((_, d)) => d,
                None => Vec::new(),
            };
            Some(Match { cmd_index, score: s, name_indices: inds, description_indices })
        },
        None => match description_hit {
            Some((s, d)) => Some(
                Match {
                    cmd_index,
                    score: s - DESCRIPTION_TIER_OFFSET,
                    name_indices: Vec::new(),
                    description_indices: d,
                },
            ),
            None => match keyword_best {
                Some(s) => Some(
                    Match {
                        cmd_index,
                        score: s - KEYWORD_TIER_OFFSET,
                        name_indices: Vec::new(),
                        description_indices: Vec::new(),
                    },
                ),
                None => None,
            },
        },
    }
}

/// The match of `cmd` (at `cmd_index`) against the non-empty `pattern`:
/// asks the matcher about the name and the description, and about each
/// keyword only when neither matched, and
/// builds the match with [`match_from_hits`].
pub fn match_command<R>(cmd: &Command<R>, cmd_index: usize, pattern: &str) -> (r: Option<Match>)
    ensures
        r matches Some(m) ==> candidate(cmd@, cmd_index as int, pattern@) == Some(m@),
        r is None ==> candidate(cmd@, cmd_index as int, pattern@) is None,
{
    let name_hit = skim_indices(cmd.name.as_str(), pattern);
    let description_hit = skim_indices(cmd.description.as_str(), pattern);
    let keyword_best = if name_hit.is_none() && description_hit.is_none() {
        best_keyword(&cmd.keywords, pattern)
    } else {
        None
    };
    match_from_hits(cmd_index, name_hit, description_hit, keyword_best)
}

/// Rank `cmds` against `query`.
///
/// A blank (trimmed) query gives every command in registration order with no
/// highlight indices. Otherwise the trimmed query is cut to
/// [`MAX_QUERY_LEN`] chars and each command is scored: name tier first, then
/// description tier, then the best keyword score; commands with no hit
/// anywhere are left out. The result is ranked by [`ranks_before`].
pub fn filter_commands<R>(cmds: &[Command<R>], query: &str) -> (r: Vec<Match>)
    ensures
        match_views(r@) == filter_spec(command_views(cmds@), query@),
{
    let ghost views = command_views(cmds@);
    let trimmed = str_trim(query);
    if trimmed.unicode_len() == 0 {
        let mut all: Vec<Match> = Vec::new();
        let mut i: usize = 0;
        while i < cmds.len()
            invariant
                i <= cmds@.len(),
                all@.len() == i,
                forall|j: int| 0 <= j < i ==> (#[trigger] all@[j])@ == (MatchView {
                    cmd_index: j,
                    score: 0,
                    name_indices: Seq::empty(),
                    description_indices: Seq::empty(),
                }),
            decreases cmds@.len() - i,
        {
            all.push(Match { cmd_index: i, score: 0, name_indices: Vec::new(), description_indices: Vec::new() });
            i = i + 1;
        }
        proof {
            assert(match_views(all@) =~= filter_spec(views, query@));
        }
        return all;
    }
    let pattern = take_chars_string(trimmed, MAX_QUERY_LEN);
    let mut out: Vec<Match> = Vec::new();
    let mut i: usize = 0;
    while i < cmds.len()
        invariant
            i <= cmds@.len(),
            views == command_views(cmds@),
            pattern@ == effective_query(query@),
            match_views(out@) == ranked(views, pattern@, i as nat),
        decreases cmds@.len() - i,
    {
        let found = match_command(&cmds[i], i, pattern.as_str());
        proof {
            assert(views[i as int] == cmds@[i as int]@);
        }
        match found {
            Some(m) => {
                let ghost prev = match_views(out@);
                let mut k: usize = 0;
                while k < out.len() && !ranks_before_exec(&m, &out[k])
                    invariant
                        k <= out@.len(),
                        prev == match_views(out@),
                        forall|j: int| 0 <= j < k ==> !ranks_before(m@, #[trigger] prev[j]),
                    decreases out@.len() - k,
                {
                    k = k + 1;
                }
                proof {
                    lemma_insert_ranked_at(prev, m@, k as int);
                }
                let ghost mv = m@;
                out.insert(k, m);
                proof {
                    assert(match_views(out@) =~= prev.insert(k as int, mv));
                }
            },
            None => {},
        }
        i = i + 1;
    }
    out
}

} // verus!

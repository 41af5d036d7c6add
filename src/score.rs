//! Running score, the high-score history, and change detection for
//! observers.
use crate::events::GameOver;
use vstd::prelude::*;

verus! {

/// The points of the current game.
#[derive(Clone, Copy, Debug, PartialEq, Eq, Structural)]
pub struct Score {
    pub value: usize,
}

impl Default for Score {
    fn default() -> (s: Score)
        ensures
            s.value == 0,
    {
        Score { value: 0 }
    }
}

/// `v + k`, held at `usize::MAX`.
pub open spec fn add_points(v: int, k: int) -> int {
    if v + k > usize::MAX {
        usize::MAX as int
    } else {
        v + k
    }
}

impl Score {
    /// Adds one point (held at `usize::MAX`).
    pub fn add_point(&mut self)
        ensures
            final(self).value == add_points(old(self).value as int, 1),
    {
        self.value = self.value.saturating_add(1);
    }
}

/// The label under which every finished game is recorded.
pub open spec fn player_label() -> Seq<char> {
    seq!['P', 'l', 'a', 'y', 'e', 'r']
}

/// The history of finished games, oldest first, as (label, score) pairs.
#[derive(Debug)]
pub struct HighScores {
    pub scores: Vec<(String, usize)>,
}

/// The history with each label as its characters.
pub open spec fn entries(scores: Seq<(String, usize)>) -> Seq<(Seq<char>, usize)> {
    scores.map_values(|e: (String, usize)| (e.0@, e.1))
}

/// The entries that a sequence of game-over notifications appends.
pub open spec fn recorded(events: Seq<GameOver>) -> Seq<(Seq<char>, usize)> {
    events.map_values(|e: GameOver| (player_label(), e.score_value))
}

impl Default for HighScores {
    fn default() -> (h: HighScores)
        ensures
            h.scores@.len() == 0,
    {
        HighScores { scores: Vec::new() }
    }
}

/// Appends one entry per game-over notification, in order; the history is
/// never trimmed or sorted.
pub fn update_high_scores(game_over_events: &Vec<GameOver>, high_scores: &mut HighScores)
    ensures
        entries(final(high_scores).scores@) == entries(old(high_scores).scores@) + recorded(
            game_over_events@,
        ),
{
    let ghost start = entries(high_scores.scores@);
    let mut i: usize = 0;
    while i < game_over_events.len()
        invariant
            0 <= i <= game_over_events@.len(),
            entries(high_scores.scores@) == start + recorded(game_over_events@.subrange(0, i as int)),
        decreases game_over_events@.len() - i,
    {
        let label = String::from_str("Player");
        proof {
            reveal_strlit("Player");
            assert(label@ =~= player_label());
        }
        let ghost before = high_scores.scores@;
        high_scores.scores.push((label, game_over_events[i].score_value));
        proof {
            assert(entries(high_scores.scores@) =~= entries(before).push(
                (player_label(), game_over_events@[i as int].score_value),
            ));
            assert(recorded(game_over_events@.subrange(0, i + 1)) =~= recorded(
                game_over_events@.subrange(0, i as int),
            ).push((player_label(), game_over_events@[i as int].score_value)));
        }
        i = i + 1;
    }
    assert(game_over_events@.subrange(0, i as int) =~= game_over_events@);
}

/// What an observer saw last, so that it is told only of changes.
#[derive(Clone, Copy, Debug, PartialEq, Eq, Structural)]
pub struct ScoreWatch {
    pub last_score: Option<usize>,
    pub last_high_scores_len: Option<usize>,
}

impl Default for ScoreWatch {
    fn default() -> (w: ScoreWatch)
        ensures
            w.last_score.is_none(),
            w.last_high_scores_len.is_none(),
    {
        ScoreWatch { last_score: None, last_high_scores_len: None }
    }
}

/// The score to report, if it differs from the last one reported.
pub fn update_score(score: &Score, watch: &mut ScoreWatch) -> (report: Option<usize>)
    ensures
        report == (if old(watch).last_score == Some(score.value) {
            None
        } else {
            Some(score.value)
        }),
        final(watch).last_score == Some(score.value),
        final(watch).last_high_scores_len == old(watch).last_high_scores_len,
{
    if watch.last_score == Some(score.value) {
        None
    } else {
        watch.last_score = Some(score.value);
        Some(score.value)
    }
}

/// Whether the history changed since it was last reported. The history only
/// grows, so a change is a change of length.
pub fn print_high_scores(high_scores: &HighScores, watch: &mut ScoreWatch) -> (changed: bool)
    ensures
        changed == (old(watch).last_high_scores_len != Some(high_scores.scores@.len() as usize)),
        final(watch).last_high_scores_len == Some(high_scores.scores@.len() as usize),
        final(watch).last_score == old(watch).last_score,
{
    let len = high_scores.scores.len();
    if watch.last_high_scores_len == Some(len) {
        false
    } else {
        watch.last_high_scores_len = Some(len);
        true
    }
}

} // verus!

//! The ranking of the best results: at most five values in ascending
//! order.

use vstd::prelude::*;

verus! {

/// The number of entries that a ranking keeps.
pub const NB_HIGHSCORES: usize = 5;

/// A ranking holds at most five values, in ascending order.
pub open spec fn is_ranking(s: Seq<u32>) -> bool {
    &&& s.len() <= NB_HIGHSCORES
    &&& forall|i: int, j: int| 0 <= i <= j < s.len() ==> s[i] <= s[j]
}

/// The place at which `value` enters `s`: before the first entry that is
/// not below it.
pub open spec fn insertion_point(s: Seq<u32>, value: u32) -> int
    decreases s.len(),
{
    if s.len() == 0 || s[0] >= value {
        0
    } else {
        1 + insertion_point(s.drop_first(), value)
    }
}

/// The ranking after `value` has entered it: `value` stands at its place,
/// and where that makes six entries, the lowest one has left.
pub open spec fn entered(s: Seq<u32>, value: u32) -> Seq<u32> {
    let placed = s.insert(insertion_point(s, value), value);
    if placed.len() > NB_HIGHSCORES {
        placed.drop_first()
    } else {
        placed
    }
}

/// The insertion point is the one place that has only lower entries before
/// it and none at it.
pub proof fn lemma_insertion_point(s: Seq<u32>, value: u32, i: int)
    requires
        0 <= i <= s.len(),
        forall|k: int| 0 <= k < i ==> s[k] < value,
        i < s.len() ==> s[i] >= value,
    ensures
        insertion_point(s, value) == i,
    decreases s.len(),
{
    if i > 0 {
        let rest = s.drop_first();
        assert forall|k: int| 0 <= k < i - 1 implies rest[k] < value by {
            assert(rest[k] == s[k + 1]);
        }
        lemma_insertion_point(rest, value, i - 1);
    }
}

/// A value that enters a ranking leaves a ranking.
pub proof fn lemma_entered_ranking(s: Seq<u32>, value: u32)
    requires
        is_ranking(s),
    ensures
        is_ranking(entered(s, value)),
        entered(s, value).len() == if s.len() < NB_HIGHSCORES {
            s.len() + 1
        } else {
            s.len()
        },
{
    let p = insertion_point(s, value);
    lemma_insertion_bounds(s, value);
    let placed = s.insert(p, value);
    assert forall|i: int, j: int| 0 <= i <= j < placed.len() implies placed[i] <= placed[j] by {
        if i < p && j > p {
            assert(placed[i] == s[i] && placed[j] == s[j - 1]);
        }
    }
}

/// Only lower entries stand before the insertion point, and the entry at
/// it is not lower.
pub proof fn lemma_insertion_bounds(s: Seq<u32>, value: u32)
    ensures
        0 <= insertion_point(s, value) <= s.len(),
        forall|k: int| 0 <= k < insertion_point(s, value) ==> s[k] < value,
        insertion_point(s, value) < s.len() ==> s[insertion_point(s, value)] >= value,
    decreases s.len(),
{
    if !(s.len() == 0 || s[0] >= value) {
        let rest = s.drop_first();
        lemma_insertion_bounds(rest, value);
        assert forall|k: int| 0 <= k < insertion_point(s, value) implies s[k] < value by {
            if k > 0 {
                assert(s[k] == rest[k - 1]);
            }
        }
        let p = insertion_point(rest, value);
        if p < rest.len() {
            assert(s[p + 1] == rest[p]);
        }
    }
}

/// Whether `v` is a ranking.
pub fn check_ranking(v: &Vec<u32>) -> (valid: bool)
    ensures
        valid == is_ranking(v@),
{
    if v.len() > NB_HIGHSCORES {
        return false;
    }
    let mut i: usize = 1;
    while i < v.len()
        invariant
            1 <= i,
            v.len() <= NB_HIGHSCORES,
            forall|a: int, b: int| 0 <= a <= b < i && b < v.len() ==> v[a] <= v[b],
        decreases v.len() - i,
    {
        if v[i - 1] > v[i] {
            return false;
        }
        i += 1;
    }
    true
}

/// The place at which `value` enters `v`.
fn find_place(v: &Vec<u32>, value: u32) -> (place: usize)
    ensures
        place == insertion_point(v@, value),
        place <= v.len(),
{
    let mut i: usize = 0;
    while i < v.len() && v[i] < value
        invariant
            i <= v.len(),
            forall|k: int| 0 <= k < i ==> v[k] < value,
        decreases v.len() - i,
    {
        i += 1;
    }
    proof {
        lemma_insertion_point(v@, value, i as int);
    }
    i
}

/// Enters `value` into the ranking `v` and says whether the ranking
/// changed. A ranking of fewer than five entries always takes the value. A
/// full one takes it where it beats the lowest entry, which then leaves.
pub fn update_vec(v: &mut Vec<u32>, value: u32) -> (changed: bool)
    requires
        is_ranking(old(v)@),
    ensures
        final(v)@ == entered(old(v)@, value),
        changed == (final(v)@ != old(v)@),
        changed == (old(v).len() < NB_HIGHSCORES || old(v)@[0] < value),
        is_ranking(final(v)@),
{
    let ghost s = v@;
    proof {
        lemma_entered_ranking(s, value);
        lemma_insertion_bounds(s, value);
    }
    if v.len() < NB_HIGHSCORES {
        let place = find_place(v, value);
        v.insert(place, value);
        true
    } else if v[0] < value {
        v.remove(0);
        let place = find_place(v, value);
        proof {
            let rest = s.drop_first();
            assert(v@ =~= rest);
            assert(insertion_point(s, value) == 1 + place);
            assert(rest.insert(place as int, value) =~= s.insert(1 + place, value).drop_first());
            lemma_insertion_bounds(rest, value);
            assert(rest.insert(place as int, value)[place as int] == value);
            if place > 0 {
                assert(s[place as int] == rest[place - 1]);
            }
            assert(s[place as int] < value);
        }
        v.insert(place, value);
        true
    } else {
        proof {
            assert(insertion_point(s, value) == 0);
            assert(s.insert(0, value).drop_first() =~= s);
        }
        false
    }
}

/// The rankings after a game, and what the game changed in them.
pub struct GameRecord {
    /// The ranking of scores.
    pub highscores: Vec<u32>,
    /// The ranking of line counts.
    pub lines_sent: Vec<u32>,
    /// The score entered its ranking.
    pub new_highscore: bool,
    /// The line count entered its ranking.
    pub new_lines_sent: bool,
}

/// The rankings that were kept so far can be built on: both are rankings.
pub open spec fn usable(kept: Option<(Vec<u32>, Vec<u32>)>) -> bool {
    kept matches Some((highscores, lines_sent)) && is_ranking(highscores@) && is_ranking(
        lines_sent@,
    )
}

/// Enters the result of a game into the rankings that were kept so far.
/// Where none were kept, or where what was kept is no pair of rankings, the
/// result starts two new rankings and counts as new in both.
pub fn record_game(kept: Option<(Vec<u32>, Vec<u32>)>, score: u32, nb_lines: u32) -> (record:
    GameRecord)
    ensures
        is_ranking(record.highscores@),
        is_ranking(record.lines_sent@),
        usable(kept) ==> {
            let (highscores, lines_sent) = kept->0;
            &&& record.highscores@ == entered(highscores@, score)
            &&& record.lines_sent@ == entered(lines_sent@, nb_lines)
            &&& record.new_highscore == (record.highscores@ != highscores@)
            &&& record.new_lines_sent == (record.lines_sent@ != lines_sent@)
        },
        !usable(kept) ==> {
            &&& record.highscores@ == seq![score]
            &&& record.lines_sent@ == seq![nb_lines]
            &&& record.new_highscore
            &&& record.new_lines_sent
        },
{
    match kept {
        Some((mut highscores, mut lines_sent)) => {
            if check_ranking(&highscores) && check_ranking(&lines_sent) {
                let new_highscore = update_vec(&mut highscores, score);
                let new_lines_sent = update_vec(&mut lines_sent, nb_lines);
                return GameRecord { highscores, lines_sent, new_highscore, new_lines_sent };
            }
        },
        None => {},
    }
    let mut highscores: Vec<u32> = Vec::new();
    highscores.push(score);
    let mut lines_sent: Vec<u32> = Vec::new();
    lines_sent.push(nb_lines);
    assert(highscores@ =~= seq![score]);
    assert(lines_sent@ =~= seq![nb_lines]);
    GameRecord { highscores, lines_sent, new_highscore: true, new_lines_sent: true }
}

} // verus!

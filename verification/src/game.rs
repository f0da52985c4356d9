//! The game board: an ordered list of categories.

use crate::category::{
    flag_count, flagged_positions, lemma_draw_on_unmarked_category, lemma_draw_only_adds_flags,
    JeopardyCategory,
};
use crate::draw::{
    first_two, is_selection, lemma_arrangement_draws_selection, lemma_selection_is_a_pair,
    shuffled_indices, times_drawn,
};
use vstd::prelude::*;

verus! {

/// How many answers of the categories are marked as Double Jeopardy, all
/// categories taken together.
pub open spec fn total_flag_count(categories: Seq<JeopardyCategory>) -> nat
    decreases categories.len(),
{
    if categories.len() == 0 {
        0
    } else {
        total_flag_count(categories.drop_last()) + flag_count(categories.last().answers@)
    }
}

/// All marks of the categories lie in the two categories at `first` and
/// `second`, two in each.
pub open spec fn marks_in_two_categories(
    categories: Seq<JeopardyCategory>,
    first: int,
    second: int,
) -> bool {
    &&& 0 <= first < categories.len()
    &&& 0 <= second < categories.len()
    &&& first != second
    &&& forall|c: int|
        0 <= c < categories.len() ==> flag_count((#[trigger] categories[c]).answers@) == if c
            == first || c == second {
            2nat
        } else {
            0
        }
}

/// A game: its categories, in board order.
#[derive(Debug)]
pub struct JeopardyGame {
    pub categories: Vec<JeopardyCategory>,
}

impl JeopardyGame {
    /// A game is valid when it has five categories and each of them is valid.
    pub open spec fn valid(self) -> bool {
        &&& self.categories@.len() == 5
        &&& forall|i: int|
            0 <= i < self.categories@.len() ==> (#[trigger] self.categories@[i]).valid()
    }

    /// No answer of the game is marked as Double Jeopardy.
    pub open spec fn unmarked(self) -> bool {
        forall|c: int, k: int|
            0 <= c < self.categories@.len() && 0 <= k < self.categories@[c].answers@.len() ==> !(
            #[trigger] self.categories@[c].answers@[k]).flagged()
    }

    /// `self` is what one draw can leave of `before`: a selection of the
    /// categories has had one draw each, and the other categories are as
    /// they were.
    pub open spec fn drawn_from(self, before: JeopardyGame) -> bool {
        &&& self.categories@.len() == before.categories@.len()
        &&& exists|picks: Set<int>|
            #![trigger is_selection(picks, before.categories@.len())]
            is_selection(picks, before.categories@.len()) && forall|c: int|
                0 <= c < before.categories@.len() ==> if picks.contains(c) {
                    (#[trigger] self.categories@[c]).drawn_from(before.categories@[c])
                } else {
                    self.categories@[c] == before.categories@[c]
                }
    }

    /// A game without categories.
    pub fn new() -> (game: JeopardyGame)
        ensures
            game.categories@ == Seq::<JeopardyCategory>::empty(),
    {
        JeopardyGame { categories: Vec::new() }
    }

    /// Check whether a game has 5 categories and every category has 5 answers.
    pub fn is_valid(&self) -> (ok: bool)
        ensures
            ok == self.valid(),
    {
        if self.categories.len() != 5 {
            return false;
        }
        let mut i: usize = 0;
        while i < self.categories.len()
            invariant
                i <= self.categories@.len(),
                forall|j: int| 0 <= j < i ==> (#[trigger] self.categories@[j]).valid(),
            decreases self.categories@.len() - i,
        {
            if !self.categories[i].is_valid() {
                return false;
            }
            i += 1;
        }
        true
    }

    /// Let each category that `order` draws, those at its first two entries,
    /// draw its own Double Jeopardy answers. A category whose position comes
    /// twice draws twice.
    pub fn mark_categories(&mut self, order: &[usize])
        requires
            forall|k: int|
                0 <= k < order@.len() && k < 2 ==> order@[k] < old(self).categories@.len(),
        ensures
            final(self).categories@.len() == old(self).categories@.len(),
            forall|c: int|
                0 <= c < old(self).categories@.len() ==> (
                #[trigger] final(self).categories@[c]).drawn_times_from(
                    old(self).categories@[c],
                    times_drawn(order@, c),
                ),
    {
        let mut k: usize = 0;
        while k < order.len() && k < 2
            invariant
                k <= order@.len(),
                k <= 2,
                forall|j: int|
                    0 <= j < order@.len() && j < 2 ==> order@[j] < old(self).categories@.len(),
                self.categories@.len() == old(self).categories@.len(),
                forall|c: int|
                    0 <= c < old(self).categories@.len() ==> (
                    #[trigger] self.categories@[c]).drawn_times_from(
                        old(self).categories@[c],
                        times_drawn(order@.take(k as int), c),
                    ),
            decreases order@.len() - k,
        {
            let i: usize = order[k];
            let ghost earlier = self.categories@;
            self.categories[i].double_jeopardy();
            proof {
                assert forall|c: int| 0 <= c < old(self).categories@.len() implies (
                #[trigger] self.categories@[c]).drawn_times_from(
                    old(self).categories@[c],
                    times_drawn(order@.take(k + 1), c),
                ) by {
                    let before = old(self).categories@[c];
                    if c == i {
                        assert(self.categories@[c].drawn_from(earlier[c]));
                        assert(earlier[c].drawn_times_from(
                            before,
                            times_drawn(order@.take(k as int), c),
                        ));
                    } else {
                        assert(self.categories@[c] == earlier[c]);
                    }
                }
            }
            k += 1;
        }
        proof {
            assert forall|c: int| 0 <= c < old(self).categories@.len() implies times_drawn(
                order@.take(k as int),
                c,
            ) == times_drawn(order@, c) by {}
        }
    }

    /// Randomly choose two categories, and in each of them two answers, to
    /// be a Double Jeopardy. A game with fewer than two categories has all of
    /// them chosen.
    pub fn double_jeopardy(&mut self)
        ensures
            final(self).drawn_from(*old(self)),
    {
        let order = shuffled_indices(self.categories.len());
        proof {
            lemma_arrangement_draws_selection(order@, self.categories@.len());
        }
        self.mark_categories(order.as_slice());
        proof {
            let picks = first_two(order@);
            assert(is_selection(picks, old(self).categories@.len()));
            assert forall|c: int| 0 <= c < old(self).categories@.len() implies if picks.contains(
                c,
            ) {
                (#[trigger] self.categories@[c]).drawn_from(old(self).categories@[c])
            } else {
                self.categories@[c] == old(self).categories@[c]
            } by {
                assert(self.categories@[c].drawn_times_from(
                    old(self).categories@[c],
                    times_drawn(order@, c),
                ));
            }
        }
    }
}

/// A game is valid exactly when it has five categories of five answers each.
pub proof fn lemma_game_valid_iff_five_by_five(game: JeopardyGame)
    ensures
        game.valid() <==> (game.categories@.len() == 5 && forall|c: int|
            0 <= c < game.categories@.len() ==> (#[trigger] game.categories@[c]).answers@.len()
                == 5),
{
    if game.categories@.len() == 5 && (forall|c: int|
        0 <= c < game.categories@.len() ==> (#[trigger] game.categories@[c]).answers@.len() == 5) {
        assert forall|c: int| 0 <= c < game.categories@.len() implies (
        #[trigger] game.categories@[c]).valid() by {}
    }
}

/// One draw on a valid game without marks leaves a valid game in which
/// exactly two categories hold exactly two marked answers each and no other
/// answer is marked: four marked answers in all.
pub proof fn lemma_draw_on_fresh_game(before: JeopardyGame, after: JeopardyGame)
    requires
        before.valid(),
        before.unmarked(),
        after.drawn_from(before),
    ensures
        after.valid(),
        exists|first: int, second: int| #[trigger]
            marks_in_two_categories(after.categories@, first, second),
        total_flag_count(after.categories@) == 4,
{
    let picks = choose|picks: Set<int>|
        #![trigger is_selection(picks, before.categories@.len())]
        is_selection(picks, before.categories@.len()) && forall|c: int|
            0 <= c < before.categories@.len() ==> if picks.contains(c) {
                (#[trigger] after.categories@[c]).drawn_from(before.categories@[c])
            } else {
                after.categories@[c] == before.categories@[c]
            };
    lemma_selection_is_a_pair(picks, 5);
    let (first, second) = choose|i: int, j: int|
        0 <= i < 5 && 0 <= j < 5 && i != j && picks == #[trigger] set![i, j];
    assert forall|c: int| 0 <= c < 5 implies flag_count((#[trigger] after.categories@[c]).answers@)
        == if c == first || c == second {
        2nat
    } else {
        0
    } && after.categories@[c].valid() by {
        let was = before.categories@[c];
        assert(was.valid());
        assert forall|k: int| 0 <= k < was.answers@.len() implies !(
        #[trigger] was.answers@[k]).flagged() by {
            assert(!before.categories@[c].answers@[k].flagged());
        }
        if picks.contains(c) {
            lemma_draw_on_unmarked_category(was, after.categories@[c]);
            lemma_draw_only_adds_flags(was, after.categories@[c]);
        } else {
            assert(flagged_positions(was.answers@) =~= Set::empty());
        }
    }
    assert(marks_in_two_categories(after.categories@, first, second));
    let all = after.categories@;
    assert(total_flag_count(all) == 4) by {
        let four = all.drop_last();
        let three = four.drop_last();
        let two = three.drop_last();
        let one = two.drop_last();
        assert(all.last() == all[4] && four.last() == all[3] && three.last() == all[2]
            && two.last() == all[1] && one.last() == all[0]);
        assert(total_flag_count(one.drop_last()) == 0);
        assert(total_flag_count(one) == flag_count(all[0].answers@));
        assert(total_flag_count(two) == total_flag_count(one) + flag_count(all[1].answers@));
        assert(total_flag_count(three) == total_flag_count(two) + flag_count(all[2].answers@));
        assert(total_flag_count(four) == total_flag_count(three) + flag_count(all[3].answers@));
        assert(total_flag_count(all) == total_flag_count(four) + flag_count(all[4].answers@));
    }
}

/// A draw only ever adds marks. It keeps the categories' number, names and
/// sizes and the validity of the game; an answer that was marked stays
/// marked; and no category loses a mark or gains more than two.
pub proof fn lemma_game_draw_only_adds_flags(before: JeopardyGame, after: JeopardyGame)
    requires
        after.drawn_from(before),
    ensures
        after.categories@.len() == before.categories@.len(),
        after.valid() == before.valid(),
        forall|c: int|
            0 <= c < before.categories@.len() ==> {
                &&& (#[trigger] after.categories@[c]).name == before.categories@[c].name
                &&& after.categories@[c].answers@.len() == before.categories@[c].answers@.len()
                &&& flag_count(before.categories@[c].answers@) <= flag_count(
                    after.categories@[c].answers@,
                ) <= flag_count(before.categories@[c].answers@) + 2
            },
        forall|c: int, k: int|
            0 <= c < before.categories@.len() && 0 <= k < before.categories@[c].answers@.len()
                && before.categories@[c].answers@[k].flagged() ==> (
            #[trigger] after.categories@[c].answers@[k]).flagged(),
{
    let picks = choose|picks: Set<int>|
        #![trigger is_selection(picks, before.categories@.len())]
        is_selection(picks, before.categories@.len()) && forall|c: int|
            0 <= c < before.categories@.len() ==> if picks.contains(c) {
                (#[trigger] after.categories@[c]).drawn_from(before.categories@[c])
            } else {
                after.categories@[c] == before.categories@[c]
            };
    assert forall|c: int| 0 <= c < before.categories@.len() implies {
        &&& (#[trigger] after.categories@[c]).name == before.categories@[c].name
        &&& after.categories@[c].answers@.len() == before.categories@[c].answers@.len()
        &&& after.categories@[c].valid() == before.categories@[c].valid()
        &&& flag_count(before.categories@[c].answers@) <= flag_count(after.categories@[c].answers@)
            <= flag_count(before.categories@[c].answers@) + 2
        &&& forall|k: int|
            0 <= k < before.categories@[c].answers@.len()
                && before.categories@[c].answers@[k].flagged() ==> (
            #[trigger] after.categories@[c].answers@[k]).flagged()
    } by {
        if picks.contains(c) {
            lemma_draw_only_adds_flags(before.categories@[c], after.categories@[c]);
        }
    }
    if before.valid() {
        assert forall|c: int| 0 <= c < after.categories@.len() implies (
        #[trigger] after.categories@[c]).valid() by {
            assert(before.categories@[c].valid());
        }
    }
    if after.valid() {
        assert forall|c: int| 0 <= c < before.categories@.len() implies (
        #[trigger] before.categories@[c]).valid() by {
            assert(after.categories@[c].valid());
        }
    }
}

/// Draws accumulate: after two draws in a row every answer that was marked at
/// the start is still marked, and each category holds at least as many marks
/// as at the start and at most four more.
pub proof fn lemma_repeated_game_draws_accumulate(
    start: JeopardyGame,
    middle: JeopardyGame,
    end: JeopardyGame,
)
    requires
        middle.drawn_from(start),
        end.drawn_from(middle),
    ensures
        end.categories@.len() == start.categories@.len(),
        forall|c: int|
            0 <= c < start.categories@.len() ==> flag_count(start.categories@[c].answers@)
                <= flag_count((#[trigger] end.categories@[c]).answers@) <= flag_count(
                start.categories@[c].answers@,
            ) + 4,
        forall|c: int, k: int|
            0 <= c < start.categories@.len() && 0 <= k < start.categories@[c].answers@.len()
                && start.categories@[c].answers@[k].flagged() ==> (
            #[trigger] end.categories@[c].answers@[k]).flagged(),
{
    lemma_game_draw_only_adds_flags(start, middle);
    lemma_game_draw_only_adds_flags(middle, end);
    assert forall|c: int|
        0 <= c < start.categories@.len() implies flag_count(start.categories@[c].answers@)
        <= flag_count((#[trigger] end.categories@[c]).answers@) <= flag_count(
        start.categories@[c].answers@,
    ) + 4 by {
        assert(middle.categories@[c].name == start.categories@[c].name);
    }
    assert forall|c: int, k: int|
        0 <= c < start.categories@.len() && 0 <= k < start.categories@[c].answers@.len()
            && start.categories@[c].answers@[k].flagged() implies (
    #[trigger] end.categories@[c].answers@[k]).flagged() by {
        assert(middle.categories@[c].name == start.categories@[c].name);
        assert(middle.categories@[c].answers@[k].flagged());
    }
}

} // verus!

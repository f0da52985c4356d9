//! A named category of answers.

use crate::answer::JeopardyAnswer;
use crate::draw::{first_two, is_selection, lemma_arrangement_draws_selection, shuffled_indices};
use vstd::prelude::*;
use vstd::set_lib::{lemma_int_range, lemma_len_subset, lemma_len_union, set_int_range};

verus! {

/// The answers with those at the positions in `picks` marked as Double
/// Jeopardy and the others as they were.
pub open spec fn marked_at(answers: Seq<JeopardyAnswer>, picks: Set<int>) -> Seq<JeopardyAnswer> {
    Seq::new(
        answers.len(),
        |k: int|
            if picks.contains(k) {
                answers[k].with_flag()
            } else {
                answers[k]
            },
    )
}

/// The positions of the answers that are marked as Double Jeopardy.
pub open spec fn flagged_positions(answers: Seq<JeopardyAnswer>) -> Set<int> {
    Set::new(|k: int| 0 <= k < answers.len() && answers[k].flagged())
}

/// How many of the answers are marked as Double Jeopardy.
pub open spec fn flag_count(answers: Seq<JeopardyAnswer>) -> nat {
    flagged_positions(answers).len()
}

/// A category of the board: its name and its answers, in board order.
#[derive(Debug, Clone)]
pub struct JeopardyCategory {
    pub name: String,
    pub answers: Vec<JeopardyAnswer>,
}

impl JeopardyCategory {
    /// A category is valid when it has five answers and each of them is
    /// valid.
    pub open spec fn valid(self) -> bool {
        &&& self.answers@.len() == 5
        &&& forall|i: int| 0 <= i < self.answers@.len() ==> (#[trigger] self.answers@[i]).valid()
    }

    /// `self` is what one draw can leave of `before`: the name is kept, and
    /// the answers are those of `before` with a selection of them marked.
    pub open spec fn drawn_from(self, before: JeopardyCategory) -> bool {
        &&& self.name == before.name
        &&& exists|picks: Set<int>|
            #![trigger marked_at(before.answers@, picks)]
            is_selection(picks, before.answers@.len()) && self.answers@ == marked_at(
                before.answers@,
                picks,
            )
    }

    /// `self` is what `times` draws in a row can leave of `before`, where
    /// `times` is 0, 1 or 2. Without a draw the category is as it was.
    pub open spec fn drawn_times_from(self, before: JeopardyCategory, times: nat) -> bool {
        if times == 0 {
            self == before
        } else if times == 1 {
            self.drawn_from(before)
        } else {
            exists|middle: JeopardyCategory|
                #![trigger middle.drawn_from(before)]
                middle.drawn_from(before) && self.drawn_from(middle)
        }
    }

    /// Check whether a category has 5 answers, all of them valid.
    pub fn is_valid(&self) -> (ok: bool)
        ensures
            ok == self.valid(),
    {
        if self.answers.len() != 5 {
            return false;
        }
        let mut i: usize = 0;
        while i < self.answers.len()
            invariant
                i <= self.answers@.len(),
                forall|j: int| 0 <= j < i ==> (#[trigger] self.answers@[j]).valid(),
            decreases self.answers@.len() - i,
        {
            if !self.answers[i].is_valid() {
                return false;
            }
            i += 1;
        }
        true
    }

    /// Mark the answers that `order` draws: those at its first two entries.
    /// An entry that comes twice marks its answer once.
    pub fn mark_answers(&mut self, order: &[usize])
        requires
            forall|k: int| 0 <= k < order@.len() && k < 2 ==> order@[k] < old(self).answers@.len(),
        ensures
            final(self).name == old(self).name,
            final(self).answers@ == marked_at(old(self).answers@, first_two(order@)),
    {
        let mut k: usize = 0;
        while k < order.len() && k < 2
            invariant
                k <= order@.len(),
                k <= 2,
                forall|j: int|
                    0 <= j < order@.len() && j < 2 ==> order@[j] < old(self).answers@.len(),
                self.name == old(self).name,
                self.answers@ == marked_at(old(self).answers@, first_two(order@.take(k as int))),
            decreases order@.len() - k,
        {
            let i: usize = order[k];
            self.answers[i].mark();
            proof {
                let done = first_two(order@.take(k as int));
                let next = first_two(order@.take(k + 1));
                assert(next =~= done.insert(i as int));
                assert(old(self).answers@[i as int].with_flag().with_flag() == old(
                    self,
                ).answers@[i as int].with_flag());
                assert(self.answers@ =~= marked_at(old(self).answers@, next));
            }
            k += 1;
        }
        proof {
            assert(first_two(order@.take(k as int)) =~= first_two(order@));
        }
    }

    /// Randomly choose two answers to be a Double Jeopardy. A category with
    /// fewer than two answers has all of them chosen.
    pub fn double_jeopardy(&mut self)
        ensures
            final(self).drawn_from(*old(self)),
    {
        let order = shuffled_indices(self.answers.len());
        proof {
            lemma_arrangement_draws_selection(order@, self.answers@.len());
        }
        self.mark_answers(order.as_slice());
    }
}

/// The marked answers lie at positions of the list, so there are no more of
/// them than there are answers.
pub proof fn lemma_flag_count_bounded(answers: Seq<JeopardyAnswer>)
    ensures
        flagged_positions(answers).finite(),
        flag_count(answers) <= answers.len(),
{
    let all = set_int_range(0, answers.len() as int);
    lemma_int_range(0, answers.len() as int);
    assert(flagged_positions(answers).subset_of(all));
    lemma_len_subset(flagged_positions(answers), all);
}

/// Marking changes nothing but flags, and only sets them: afterwards the
/// marked answers are those that were marked before and those at the
/// positions picked.
pub proof fn lemma_marked_at_adds_picks(answers: Seq<JeopardyAnswer>, picks: Set<int>)
    requires
        forall|i: int| picks.contains(i) ==> 0 <= i < answers.len(),
    ensures
        marked_at(answers, picks).len() == answers.len(),
        forall|k: int|
            0 <= k < answers.len() ==> (#[trigger] marked_at(answers, picks)[k]) == (if picks.contains(
                k,
            ) {
                answers[k].with_flag()
            } else {
                answers[k]
            }),
        flagged_positions(marked_at(answers, picks)) == flagged_positions(answers).union(picks),
{
    assert(flagged_positions(marked_at(answers, picks)) =~= flagged_positions(answers).union(
        picks,
    ));
}

/// A category is valid exactly when it has five answers: no answer is ever
/// invalid.
pub proof fn lemma_category_valid_iff_five_answers(category: JeopardyCategory)
    ensures
        category.valid() <==> category.answers@.len() == 5,
{
}

/// One draw on a category without marked answers leaves exactly two marked
/// answers, or as many as the category has where it has fewer than two.
pub proof fn lemma_draw_on_unmarked_category(before: JeopardyCategory, after: JeopardyCategory)
    requires
        after.drawn_from(before),
        forall|k: int| 0 <= k < before.answers@.len() ==> !(#[trigger] before.answers@[k]).flagged(),
    ensures
        flag_count(after.answers@) == if before.answers@.len() < 2 {
            before.answers@.len()
        } else {
            2
        },
{
    let picks = choose|picks: Set<int>|
        #![trigger marked_at(before.answers@, picks)]
        is_selection(picks, before.answers@.len()) && after.answers@ == marked_at(
            before.answers@,
            picks,
        );
    lemma_marked_at_adds_picks(before.answers@, picks);
    assert(flagged_positions(before.answers@) =~= Set::empty());
    assert(flagged_positions(after.answers@) =~= picks);
}

/// A draw only ever adds marks. It keeps the name, the number of answers and
/// the validity of the category; each answer is as it was or is the same
/// answer, marked; an answer that was marked stays marked; and at most two
/// marks are new.
pub proof fn lemma_draw_only_adds_flags(before: JeopardyCategory, after: JeopardyCategory)
    requires
        after.drawn_from(before),
    ensures
        after.name == before.name,
        after.answers@.len() == before.answers@.len(),
        after.valid() == before.valid(),
        forall|k: int|
            0 <= k < before.answers@.len() ==> (#[trigger] after.answers@[k]) == before.answers@[k]
                || after.answers@[k] == before.answers@[k].with_flag(),
        forall|k: int|
            0 <= k < before.answers@.len() && before.answers@[k].flagged() ==> (
            #[trigger] after.answers@[k]).flagged(),
        flagged_positions(before.answers@).subset_of(flagged_positions(after.answers@)),
        flag_count(before.answers@) <= flag_count(after.answers@) <= flag_count(before.answers@)
            + 2,
{
    let picks = choose|picks: Set<int>|
        #![trigger marked_at(before.answers@, picks)]
        is_selection(picks, before.answers@.len()) && after.answers@ == marked_at(
            before.answers@,
            picks,
        );
    lemma_marked_at_adds_picks(before.answers@, picks);
    lemma_flag_count_bounded(before.answers@);
    lemma_flag_count_bounded(after.answers@);
    lemma_len_union(flagged_positions(before.answers@), picks);
    lemma_len_subset(flagged_positions(before.answers@), flagged_positions(after.answers@));
}

/// Draws accumulate: after two draws in a row every answer that was marked at
/// the start is still marked, the count of marked answers has not gone down
/// at either step, and at most four marks are new.
pub proof fn lemma_repeated_draws_accumulate(
    start: JeopardyCategory,
    middle: JeopardyCategory,
    end: JeopardyCategory,
)
    requires
        middle.drawn_from(start),
        end.drawn_from(middle),
    ensures
        end.name == start.name,
        end.answers@.len() == start.answers@.len(),
        forall|k: int|
            0 <= k < start.answers@.len() && start.answers@[k].flagged() ==> (
            #[trigger] end.answers@[k]).flagged(),
        flag_count(start.answers@) <= flag_count(middle.answers@) <= flag_count(end.answers@)
            <= flag_count(start.answers@) + 4,
{
    lemma_draw_only_adds_flags(start, middle);
    lemma_draw_only_adds_flags(middle, end);
    assert forall|k: int|
        0 <= k < start.answers@.len() && start.answers@[k].flagged() implies (
    #[trigger] end.answers@[k]).flagged() by {
        assert(middle.answers@[k].flagged());
    }
}

} // verus!

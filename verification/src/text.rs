use vstd::prelude::*;
use vstd::seq_lib::*;
use crate::langs::{WordSupplier, WordSupplierBasic, WordSupplierRandomized};

verus! {

/// How many positions of `typed` hold the same character as `reference` at
/// the same index. Only positions below `typed`'s length count.
pub open spec fn count_matches(typed: Seq<char>, reference: Seq<char>) -> nat
    decreases typed.len(),
{
    if typed.len() == 0 {
        0
    } else {
        count_matches(typed.drop_last(), reference) + if typed.last() == reference[typed.len()
            - 1] {
            1nat
        } else {
            0nat
        }
    }
}

proof fn lemma_count_matches_le_len(typed: Seq<char>, reference: Seq<char>)
    ensures
        count_matches(typed, reference) <= typed.len(),
    decreases typed.len(),
{
    if typed.len() > 0 {
        lemma_count_matches_le_len(typed.drop_last(), reference);
    }
}

/// Appending to the reference past the typed positions never changes the
/// match count: scoring only looks at reference characters the user has
/// already reached.
proof fn lemma_count_matches_extend(typed: Seq<char>, r1: Seq<char>, r2: Seq<char>)
    requires
        typed.len() <= r1.len(),
        r1.is_prefix_of(r2),
    ensures
        count_matches(typed, r1) == count_matches(typed, r2),
    decreases typed.len(),
{
    if typed.len() > 0 {
        lemma_count_matches_extend(typed.drop_last(), r1, r2);
        assert(r1[typed.len() - 1] == r2.subrange(0, r1.len() as int)[typed.len() - 1]);
    }
}

proof fn lemma_count_matches_push(typed: Seq<char>, reference: Seq<char>, u: char)
    requires
        typed.len() < reference.len(),
    ensures
        count_matches(typed.push(u), reference) == count_matches(typed, reference) + if reference[typed.len() as int]
            == u {
            1nat
        } else {
            0nat
        },
{
    assert(typed.push(u).drop_last() =~= typed);
}

/// The typed text after one keystroke: the character is appended, right or
/// wrong, whenever a reference character exists at the cursor; a keystroke
/// past the end of the materialized text is ignored.
pub open spec fn spec_handle_char(typed: Seq<char>, reference: Seq<char>, u: char) -> Seq<char> {
    if typed.len() < reference.len() {
        typed.push(u)
    } else {
        typed
    }
}

/// The typed text after one backspace: the last character is removed;
/// backspace on empty typed text is ignored.
pub open spec fn spec_handle_backspace(typed: Seq<char>) -> Seq<char> {
    if typed.len() > 0 {
        typed.drop_last()
    } else {
        typed
    }
}

/// `post` is `pre` with possibly more text materialized: the reference text
/// and the word starts only grow (existing entries untouched), and the typed
/// text and score are exactly as before.
pub open spec fn extends<Ws: WordSupplier>(pre: TextManager<Ws>, post: TextManager<Ws>) -> bool {
    &&& pre.text@.is_prefix_of(post.text@)
    &&& pre.word_index@.is_prefix_of(post.word_index@)
    &&& (forall|k: int| 0 <= k < pre.text@.len() ==> post.text@[k] == pre.text@[k])
    &&& (forall|k: int|
        0 <= k < pre.word_index@.len() ==> post.word_index@[k] == pre.word_index@[k])
    &&& post.user_text@ == pre.user_text@
    &&& post.correct == pre.correct
}

proof fn lemma_line_break_stable<Ws: WordSupplier>(
    pre: TextManager<Ws>,
    post: TextManager<Ws>,
    i: int,
    j: int,
    width: int,
)
    requires
        extends(pre, post),
        is_line_break(pre.word_index@, i, j, width),
    ensures
        is_line_break(post.word_index@, i, j, width),
{
    assert(pre.word_index@.len() <= post.word_index@.len());
    assert forall|k: int| i < k <= j implies post.word_index@[k] - post.word_index@[i]
        <= width by {
        assert(post.word_index@[k] == pre.word_index@[k]);
        assert(post.word_index@[i] == pre.word_index@[i]);
    }
    assert(post.word_index@[j + 1] == pre.word_index@[j + 1]);
    assert(post.word_index@[i] == pre.word_index@[i]);
}

proof fn lemma_extends_transitive<Ws: WordSupplier>(
    a: TextManager<Ws>,
    b: TextManager<Ws>,
    c: TextManager<Ws>,
)
    requires
        extends(a, b),
        extends(b, c),
    ensures
        extends(a, c),
{
    assert(a.text@ =~= c.text@.subrange(0, a.text@.len() as int));
    assert(a.word_index@ =~= c.word_index@.subrange(0, a.word_index@.len() as int));
}

/// Word `j` is the greedy break for the line that starts at word `i`, for a
/// display of `width` characters: every word up to `j` starts within `width`
/// of word `i`'s start, and word `j + 1` would not. With `j == i` the line
/// is degenerate: not even the next word start fits.
pub open spec fn is_line_break(bounds: Seq<usize>, i: int, j: int, width: int) -> bool {
    &&& 0 <= i <= j
    &&& j + 1 < bounds.len()
    &&& (forall|k: int| i < k <= j ==> bounds[k] - bounds[i] <= width)
    &&& bounds[j + 1] - bounds[i] > width
}

/// Word `w` starts one of the lines of the greedy wrap that begins at word
/// 0: it is reached from 0 by following greedy line breaks.
pub open spec fn chain_reaches(bounds: Seq<usize>, width: int, w: int) -> bool
    decreases w,
{
    if w == 0 {
        true
    } else if w > 0 {
        exists|i: int|
            0 <= i < w && #[trigger] is_line_break(bounds, i, w, width) && chain_reaches(
                bounds,
                width,
                i,
            )
    } else {
        false
    }
}

proof fn lemma_chain_reaches_stable<Ws: WordSupplier>(
    pre: TextManager<Ws>,
    post: TextManager<Ws>,
    width: int,
    w: int,
)
    requires
        extends(pre, post),
        chain_reaches(pre.word_index@, width, w),
    ensures
        chain_reaches(post.word_index@, width, w),
    decreases w,
{
    if w > 0 {
        let i = choose|i: int|
            0 <= i < w && #[trigger] is_line_break(pre.word_index@, i, w, width)
                && chain_reaches(pre.word_index@, width, i);
        lemma_line_break_stable(pre, post, i, w, width);
        lemma_chain_reaches_stable(pre, post, width, i);
        assert(0 <= i < w && is_line_break(post.word_index@, i, w, width) && chain_reaches(
            post.word_index@,
            width,
            i,
        ));
    }
}

/// The streaming typing buffer: a lazily growing reference text (words from
/// the supplier joined by single spaces), the start index of each
/// materialized word, the user's typed text, and the count of typed
/// positions that match the reference.
pub struct TextManager<Ws: WordSupplier> {
    pub word_supplier: Ws,
    pub text: Vec<char>,
    pub word_index: Vec<usize>,
    pub user_text: Vec<char>,
    pub correct: usize,
}

pub type TextManagerBasic = TextManager<WordSupplierBasic>;

pub type TextManagerLang = TextManager<WordSupplierRandomized>;

impl<Ws: WordSupplier> TextManager<Ws> {
    /// The buffer's invariant: word starts begin at zero and are strictly
    /// increasing, at least two apart — every materialized word is nonempty
    /// (the supplier never hands out an empty word) and is followed by its
    /// single separator space, which also ends the text; the user can never
    /// have typed past the materialized text; and `correct` is exactly the
    /// match count.
    pub open spec fn wf(&self) -> bool {
        &&& self.word_supplier.wf()
        &&& (self.word_index@.len() == 0 ==> self.text@.len() == 0)
        &&& (self.word_index@.len() > 0 ==> self.word_index@[0] == 0)
        &&& (forall|i: int|
            0 <= i < self.word_index@.len() ==> (#[trigger] self.word_index@[i]) < self.text@.len())
        &&& (forall|i: int, j: int|
            0 <= i < j < self.word_index@.len() ==> self.word_index@[i] + 2
                <= self.word_index@[j])
        &&& (self.word_index@.len() > 0 ==> self.word_index@[self.word_index@.len() - 1] + 2
            <= self.text@.len())
        &&& (forall|i: int|
            0 < i < self.word_index@.len() ==> self.text@[(#[trigger] self.word_index@[i]) - 1]
                == ' ')
        &&& (self.text@.len() > 0 ==> self.text@[self.text@.len() - 1] == ' ')
        &&& self.user_text@.len() <= self.text@.len()
        &&& self.correct == count_matches(self.user_text@, self.text@)
    }

    pub fn new(word_supplier: Ws) -> (r: TextManager<Ws>)
        requires
            word_supplier.wf(),
        ensures
            r.wf(),
            r.word_supplier == word_supplier,
            r.text@ == Seq::<char>::empty(),
            r.word_index@ == Seq::<usize>::empty(),
            r.user_text@ == Seq::<char>::empty(),
            r.correct == 0,
    {
        TextManager {
            word_supplier,
            text: Vec::new(),
            word_index: Vec::new(),
            user_text: Vec::new(),
            correct: 0,
        }
    }

    /// Materialize word starts (and reference text) up to and including word
    /// `index`, and return that word's start index. Each missing word is
    /// appended as its start index, the word itself, then a single separator
    /// space.
    pub fn begin_of_word(&mut self, index: usize) -> (r: usize)
        requires
            old(self).wf(),
        ensures
            final(self).wf(),
            extends(*old(self), *final(self)),
            index < final(self).word_index@.len(),
            r == final(self).word_index@[index as int],
            index < old(self).word_index@.len() ==> *final(self) == *old(self),
            index >= old(self).word_index@.len() ==> final(self).word_index@.len() == index + 1,
    {
        while self.word_index.len() <= index
            invariant
                self.wf(),
                extends(*old(self), *self),
                index < old(self).word_index@.len() ==> *self == *old(self),
                self.word_index@.len() <= index + 1 || self.word_index@.len() == old(
                    self,
                ).word_index@.len(),
            decreases index + 1 - self.word_index@.len(),
        {
            let ghost head = *self;
            let boundary = self.text.len();
            self.word_index.push(boundary);
            let mut word = self.word_supplier.get_word();
            self.text.append(&mut word);
            self.text.push(' ');
            proof {
                assert(head.text@.is_prefix_of(self.text@)) by {
                    assert(head.text@ =~= self.text@.subrange(0, head.text@.len() as int));
                }
                assert(head.word_index@.is_prefix_of(self.word_index@)) by {
                    assert(head.word_index@ =~= self.word_index@.subrange(
                        0,
                        head.word_index@.len() as int,
                    ));
                }
                lemma_count_matches_le_len(self.user_text@, head.text@);
                lemma_count_matches_extend(self.user_text@, head.text@, self.text@);
                lemma_extends_transitive(*old(self), head, *self);
            }
        }
        self.word_index[index]
    }

    /// The greedy break of the line that starts at word `ind`, for a display
    /// of `width` characters: advance word by word while the next word's
    /// start stays within `width` of word `ind`'s start. Returns `ind`
    /// itself when not even the next word start fits (degenerate width); the
    /// caller must treat that as an empty line.
    pub fn next_line_begin(&mut self, ind: usize, width: usize) -> (r: usize)
        requires
            old(self).wf(),
        ensures
            final(self).wf(),
            extends(*old(self), *final(self)),
            ind <= r,
            is_line_break(final(self).word_index@, ind as int, r as int, width as int),
    {
        let base = self.begin_of_word(ind);
        let mut cur = ind;
        loop
            invariant
                self.wf(),
                extends(*old(self), *self),
                ind <= cur,
                cur < self.word_index@.len(),
                base == self.word_index@[ind as int],
                forall|k: int| ind < k <= cur ==> self.word_index@[k] - base <= width,
            ensures
                self.wf(),
                extends(*old(self), *self),
                ind <= cur,
                base == self.word_index@[ind as int],
                cur + 1 < self.word_index@.len(),
                forall|k: int| ind < k <= cur ==> self.word_index@[k] - base <= width,
                self.word_index@[cur + 1] - base > width,
            decreases width - (self.word_index@[cur as int] - base),
        {
            let ghost head = *self;
            let materialized = self.word_index.len();
            assert(cur < materialized);
            let next = self.begin_of_word(cur + 1);
            proof {
                lemma_extends_transitive(*old(self), head, *self);
            }
            if next - base <= width {
                cur = cur + 1;
            } else {
                break ;
            }
        }
        cur
    }

    /// Assemble the "just completed a line" window at breaks `0, b1, b2,
    /// b3`: the whole typed text aligns with the first line, the current
    /// line is untyped.
    fn build_completed_window(&self, b1: usize, b2: usize, b3: usize, width: usize) -> (r:
        WidgetData)
        requires
            self.wf(),
            0 < b1,
            is_line_break(self.word_index@, 0, b1 as int, width as int),
            is_line_break(self.word_index@, b1 as int, b2 as int, width as int),
            is_line_break(self.word_index@, b2 as int, b3 as int, width as int),
            self.user_text@.len() < self.word_index@[b1 as int],
        ensures
            completed_line_window_at(
                self.word_index@,
                self.text@,
                self.user_text@,
                width as int,
                r,
                b1 as int,
                b2 as int,
                b3 as int,
            ),
            r.prev_line@.len() <= width,
            r.line@.len() <= width,
            r.next_line@.len() <= width,
            r.prev_user_text@.len() <= r.prev_line@.len(),
            r.user_text@.len() <= r.line@.len(),
    {
        let i0 = self.word_index[0];
        let i1 = self.word_index[b1];
        let i2 = self.word_index[b2];
        let i3 = self.word_index[b3];
        let ind = self.user_text.len();
        let prev_line = copy_range(&self.text, i0, i1);
        let line = copy_range(&self.text, i1, i2);
        let next_line = copy_range(&self.text, i2, i3);
        let prev_user_text = copy_range(&self.user_text, i0, ind);
        WidgetData { prev_line, line, next_line, prev_user_text, user_text: Vec::new() }
    }

    /// Assemble the steady-state window at breaks `c0, c1, c2, c3`: the
    /// typed text splits at the current line's start.
    fn build_steady_window(&self, c0: usize, c1: usize, c2: usize, c3: usize, width: usize) -> (r:
        WidgetData)
        requires
            self.wf(),
            c0 < c1 < c2,
            chain_reaches(self.word_index@, width as int, c0 as int),
            is_line_break(self.word_index@, c0 as int, c1 as int, width as int),
            is_line_break(self.word_index@, c1 as int, c2 as int, width as int),
            is_line_break(self.word_index@, c2 as int, c3 as int, width as int),
            self.word_index@[c1 as int] <= self.user_text@.len() < self.word_index@[c2 as int],
        ensures
            steady_window_at(
                self.word_index@,
                self.text@,
                self.user_text@,
                width as int,
                r,
                c0 as int,
                c1 as int,
                c2 as int,
                c3 as int,
            ),
            r.prev_line@.len() <= width,
            r.line@.len() <= width,
            r.next_line@.len() <= width,
            r.prev_user_text@.len() <= r.prev_line@.len(),
            r.user_text@.len() <= r.line@.len(),
    {
        let i0 = self.word_index[c0];
        let i1 = self.word_index[c1];
        let i2 = self.word_index[c2];
        let i3 = self.word_index[c3];
        let ind = self.user_text.len();
        let prev_line = copy_range(&self.text, i0, i1);
        let line = copy_range(&self.text, i1, i2);
        let next_line = copy_range(&self.text, i2, i3);
        let prev_user_text = copy_range(&self.user_text, i0, i1);
        let user_text = copy_range(&self.user_text, i1, ind);
        WidgetData { prev_line, line, next_line, prev_user_text, user_text }
    }

    /// The three-line scrolling window for a display of `width` characters.
    /// The window slides forward until the cursor lies inside the middle
    /// line, except right after a line was completed and the next one not
    /// yet typed into: then the finished line is still shown as the previous
    /// line with the cursor at its tail. A width too narrow for some word
    /// yields an all-empty window rather than looping or panicking.
    #[verifier::rlimit(100)]
    pub fn widget_data(&mut self, width: usize) -> (r: WidgetData)
        requires
            old(self).wf(),
        ensures
            final(self).wf(),
            extends(*old(self), *final(self)),
            final(self).word_index@.len() >= 2,
            r.prev_line@.len() <= width,
            r.line@.len() <= width,
            r.next_line@.len() <= width,
            r.prev_user_text@.len() <= r.prev_line@.len(),
            r.user_text@.len() <= r.line@.len(),
            final(self).word_index@[1] > width ==> r.all_empty(),
            width < 2 ==> r.all_empty(),
            degenerate_window(final(self).word_index@, final(self).user_text@, width as int, r)
                || completed_line_window(
                final(self).word_index@,
                final(self).text@,
                final(self).user_text@,
                width as int,
                r,
            ) || steady_window(
                final(self).word_index@,
                final(self).text@,
                final(self).user_text@,
                width as int,
                r,
            ),
    {
        let b1 = self.next_line_begin(0, width);
        if b1 == 0 {
            let r = WidgetData::empty();
            proof {
                assert(self.word_index@[1] - self.word_index@[0] > width);
                assert(chain_reaches(self.word_index@, width as int, 0));
                assert(degenerate_window(self.word_index@, self.user_text@, width as int, r));
            }
            return r;
        }
        let ghost g1 = *self;
        let b2 = self.next_line_begin(b1, width);
        let ghost g2 = *self;
        proof {
            lemma_line_break_stable(g1, g2, 0, b1 as int, width as int);
            lemma_extends_transitive(*old(self), g1, g2);
        }
        let b3 = self.next_line_begin(b2, width);
        proof {
            lemma_line_break_stable(g2, *self, 0, b1 as int, width as int);
            lemma_line_break_stable(g2, *self, b1 as int, b2 as int, width as int);
            lemma_extends_transitive(*old(self), g2, *self);
        }
        let ind = self.user_text.len();
        let first = self.word_index[0];
        let w1b = self.word_index[b1];
        if first <= ind && ind < w1b {
            let r = self.build_completed_window(b1, b2, b3, width);
            proof {
                assert(self.word_index@[1] - self.word_index@[0] <= width);
                assert(self.word_index@[0] + 2 <= self.word_index@[1]);
            }
            return r;
        }
        let mut c0: usize = 0;
        let mut c1 = b1;
        let mut c2 = b2;
        let mut c3 = b3;
        proof {
            assert(chain_reaches(self.word_index@, width as int, 0));
        }
        loop
            invariant
                self.wf(),
                extends(*old(self), *self),
                ind == self.user_text@.len(),
                c0 < c1,
                c1 <= c2,
                c2 <= c3,
                chain_reaches(self.word_index@, width as int, c0 as int),
                is_line_break(self.word_index@, c0 as int, c1 as int, width as int),
                is_line_break(self.word_index@, c1 as int, c2 as int, width as int),
                is_line_break(self.word_index@, c2 as int, c3 as int, width as int),
                self.word_index@[c1 as int] <= ind,
                self.word_index@[1] <= width,
            ensures
                self.wf(),
                extends(*old(self), *self),
                ind == self.user_text@.len(),
                c0 < c1 < c2,
                c2 <= c3,
                chain_reaches(self.word_index@, width as int, c0 as int),
                is_line_break(self.word_index@, c0 as int, c1 as int, width as int),
                is_line_break(self.word_index@, c1 as int, c2 as int, width as int),
                is_line_break(self.word_index@, c2 as int, c3 as int, width as int),
                self.word_index@[c1 as int] <= ind,
                ind < self.word_index@[c2 as int],
                self.word_index@[1] <= width,
            decreases ind - self.word_index@[c1 as int],
        {
            if c1 == c2 {
                let r = WidgetData::empty();
                proof {
                    assert(self.word_index@[c1 as int + 1] - self.word_index@[c1 as int]
                        > width);
                    assert(0 <= c0 < c1 && is_line_break(
                        self.word_index@,
                        c0 as int,
                        c1 as int,
                        width as int,
                    ) && chain_reaches(self.word_index@, width as int, c0 as int));
                    assert(chain_reaches(self.word_index@, width as int, c1 as int));
                    assert(degenerate_window(self.word_index@, self.user_text@, width as int, r));
                }
                return r;
            }
            let w2b = self.word_index[c2];
            if ind < w2b {
                break ;
            }
            let ghost gh = *self;
            proof {
                assert(0 <= c0 < c1 && is_line_break(
                    gh.word_index@,
                    c0 as int,
                    c1 as int,
                    width as int,
                ) && chain_reaches(gh.word_index@, width as int, c0 as int));
                assert(chain_reaches(gh.word_index@, width as int, c1 as int));
            }
            c0 = c1;
            c1 = c2;
            c2 = c3;
            c3 = self.next_line_begin(c3, width);
            proof {
                lemma_line_break_stable(gh, *self, c0 as int, c1 as int, width as int);
                lemma_line_break_stable(gh, *self, c1 as int, c2 as int, width as int);
                lemma_chain_reaches_stable(gh, *self, width as int, c0 as int);
                lemma_extends_transitive(*old(self), gh, *self);
            }
        }
        let r = self.build_steady_window(c0, c1, c2, c3, width);
        proof {
            assert(self.word_index@[0] + 2 <= self.word_index@[1]);
        }
        r
    }

    pub fn handle_char(&mut self, u: char)
        requires
            old(self).wf(),
        ensures
            final(self).wf(),
            stepped_char(*old(self), *final(self), u),
    {
        proof {
            lemma_count_matches_le_len(self.user_text@, self.text@);
        }
        if self.user_text.len() < self.text.len() {
            let c = self.text[self.user_text.len()];
            proof {
                lemma_count_matches_push(self.user_text@, self.text@, u);
            }
            self.user_text.push(u);
            if c == u {
                self.correct = self.correct + 1;
            }
        }
    }

    pub fn handle_backspace(&mut self)
        requires
            old(self).wf(),
        ensures
            final(self).wf(),
            stepped_backspace(*old(self), *final(self)),
    {
        match self.user_text.pop() {
            Some(u) => {
                proof {
                    assert(old(self).user_text@.drop_last() =~= self.user_text@);
                }
                let c = self.text[self.user_text.len()];
                if c == u {
                    self.correct = self.correct - 1;
                }
            },
            None => {},
        }
    }

    pub fn correct(&self) -> (r: usize)
        requires
            self.wf(),
        ensures
            r == self.correct,
            r == count_matches(self.user_text@, self.text@),
    {
        self.correct
    }
}

/// The three-line window handed to the renderer: previous, current and next
/// line of reference text, plus the slices of typed text aligned to the
/// previous and current lines.
pub struct WidgetData {
    pub prev_line: Vec<char>,
    pub line: Vec<char>,
    pub next_line: Vec<char>,
    pub prev_user_text: Vec<char>,
    pub user_text: Vec<char>,
}

impl WidgetData {
    pub open spec fn all_empty(&self) -> bool {
        &&& self.prev_line@ == Seq::<char>::empty()
        &&& self.line@ == Seq::<char>::empty()
        &&& self.next_line@ == Seq::<char>::empty()
        &&& self.prev_user_text@ == Seq::<char>::empty()
        &&& self.user_text@ == Seq::<char>::empty()
    }

    pub fn empty() -> (r: WidgetData)
        ensures
            r.all_empty(),
    {
        WidgetData {
            prev_line: Vec::new(),
            line: Vec::new(),
            next_line: Vec::new(),
            prev_user_text: Vec::new(),
            user_text: Vec::new(),
        }
    }
}

/// The renderer's verdict on one displayed character: typed correctly,
/// typed wrongly, or not yet typed.
#[derive(Clone, Copy, Debug, PartialEq, Eq, Structural)]
pub enum CharFeedback {
    Correct,
    Wrong,
    Untyped,
}

pub open spec fn spec_classify(test_line: Seq<char>, user_line: Seq<char>, i: int) -> CharFeedback {
    if i < user_line.len() {
        if test_line[i] == user_line[i] {
            CharFeedback::Correct
        } else {
            CharFeedback::Wrong
        }
    } else {
        CharFeedback::Untyped
    }
}

/// Per-character classification of one displayed line against the typed
/// text aligned to it: position by position, a typed character is correct
/// or wrong by comparison with the reference, and positions past the typed
/// prefix are untyped.
pub fn classify_line(test_line: &Vec<char>, user_line: &Vec<char>) -> (r: Vec<CharFeedback>)
    ensures
        r@.len() == test_line@.len(),
        forall|i: int| 0 <= i < r@.len() ==> r@[i] == spec_classify(test_line@, user_line@, i),
{
    let mut r: Vec<CharFeedback> = Vec::new();
    for i in 0..test_line.len()
        invariant
            r@.len() == i,
            forall|k: int| 0 <= k < i ==> r@[k] == spec_classify(test_line@, user_line@, k),
    {
        let feedback = if i < user_line.len() {
            if test_line[i] == user_line[i] {
                CharFeedback::Correct
            } else {
                CharFeedback::Wrong
            }
        } else {
            CharFeedback::Untyped
        };
        r.push(feedback);
    }
    r
}

/// The degenerate answer: some line start of the greedy wrap, at or before
/// the cursor, is followed by a word alone wider than the display, so the
/// line holding the cursor cannot be formed, and the window shows nothing
/// at all.
pub open spec fn degenerate_window(
    bounds: Seq<usize>,
    typed: Seq<char>,
    width: int,
    r: WidgetData,
) -> bool {
    &&& r.all_empty()
    &&& exists|j: int|
        0 <= j && j + 1 < bounds.len() && bounds[j] <= typed.len() && chain_reaches(
            bounds,
            width,
            j,
        ) && (#[trigger] bounds[j + 1]) - bounds[j] > width
}

/// The "just completed a line" window at word breaks `0, w1, w2, w3`: the
/// cursor still sits inside the very first line, which is shown as the
/// previous line with the whole typed text aligned to it; the current line
/// is untyped.
pub open spec fn completed_line_window_at(
    bounds: Seq<usize>,
    text: Seq<char>,
    typed: Seq<char>,
    width: int,
    r: WidgetData,
    w1: int,
    w2: int,
    w3: int,
) -> bool {
    &&& is_line_break(bounds, 0, w1, width)
    &&& is_line_break(bounds, w1, w2, width)
    &&& is_line_break(bounds, w2, w3, width)
    &&& 0 < w1
    &&& typed.len() < bounds[w1]
    &&& r.prev_line@ == text.subrange(bounds[0] as int, bounds[w1] as int)
    &&& r.line@ == text.subrange(bounds[w1] as int, bounds[w2] as int)
    &&& r.next_line@ == text.subrange(bounds[w2] as int, bounds[w3] as int)
    &&& r.prev_user_text@ == typed.subrange(bounds[0] as int, typed.len() as int)
    &&& r.user_text@ == Seq::<char>::empty()
}

pub open spec fn completed_line_window(
    bounds: Seq<usize>,
    text: Seq<char>,
    typed: Seq<char>,
    width: int,
    r: WidgetData,
) -> bool {
    exists|w1: int, w2: int, w3: int|
        completed_line_window_at(bounds, text, typed, width, r, w1, w2, w3)
}

/// The steady-state window at word breaks `w0, w1, w2, w3`: three
/// consecutive lines of the greedy wrap from word 0 (`w0` is reached from 0
/// by following breaks) with the cursor inside the middle one, the typed
/// text split between the previous and the current line.
pub open spec fn steady_window_at(
    bounds: Seq<usize>,
    text: Seq<char>,
    typed: Seq<char>,
    width: int,
    r: WidgetData,
    w0: int,
    w1: int,
    w2: int,
    w3: int,
) -> bool {
    &&& is_line_break(bounds, w0, w1, width)
    &&& is_line_break(bounds, w1, w2, width)
    &&& is_line_break(bounds, w2, w3, width)
    &&& w0 < w1 < w2
    &&& chain_reaches(bounds, width, w0)
    &&& bounds[w1] <= typed.len() < bounds[w2]
    &&& r.prev_line@ == text.subrange(bounds[w0] as int, bounds[w1] as int)
    &&& r.line@ == text.subrange(bounds[w1] as int, bounds[w2] as int)
    &&& r.next_line@ == text.subrange(bounds[w2] as int, bounds[w3] as int)
    &&& r.prev_user_text@ == typed.subrange(bounds[w0] as int, bounds[w1] as int)
    &&& r.user_text@ == typed.subrange(bounds[w1] as int, typed.len() as int)
}

pub open spec fn steady_window(
    bounds: Seq<usize>,
    text: Seq<char>,
    typed: Seq<char>,
    width: int,
    r: WidgetData,
) -> bool {
    exists|w0: int, w1: int, w2: int, w3: int|
        steady_window_at(bounds, text, typed, width, r, w0, w1, w2, w3)
}

/// The greedy break of a line is unique: for one start and one width there
/// is exactly one break, so the window contracts pin each displayed line
/// exactly.
pub proof fn lemma_line_break_unique(bounds: Seq<usize>, i: int, j1: int, j2: int, width: int)
    requires
        is_line_break(bounds, i, j1, width),
        is_line_break(bounds, i, j2, width),
    ensures
        j1 == j2,
{
    if j1 < j2 {
        assert(bounds[j1 + 1] - bounds[i] <= width);
    }
    if j2 < j1 {
        assert(bounds[j2 + 1] - bounds[i] <= width);
    }
}

/// Tightness of the greedy wrap: take as display width the exact span from
/// word `i`'s start to word `j`'s start; the stretch `i..j` is then one
/// greedy line, filled completely. So for every materialized stretch of
/// whole words there is a width — the span itself — at which wrapping
/// produces a line of exactly that width.
pub proof fn lemma_max_width_achievable(bounds: Seq<usize>, i: int, j: int)
    requires
        0 <= i < j,
        j + 1 < bounds.len(),
        forall|a: int, b: int| 0 <= a < b < bounds.len() ==> bounds[a] < bounds[b],
    ensures
        is_line_break(bounds, i, j, bounds[j] - bounds[i]),
{
    assert forall|k: int| i < k <= j implies bounds[k] - bounds[i] <= bounds[j] - bounds[i] by {
        if k < j {
            assert(bounds[k] < bounds[j]);
        }
    }
    assert(bounds[j] < bounds[j + 1]);
}

/// Max-width achievability at the window level: a "just completed a line"
/// window whose width equals the span of words `0..j` shows a previous line
/// that is exactly full — the greedy wrap is tight, not conservative.
pub proof fn lemma_full_line_at_exact_width(
    bounds: Seq<usize>,
    text: Seq<char>,
    typed: Seq<char>,
    width: int,
    r: WidgetData,
    w1: int,
    w2: int,
    w3: int,
    j: int,
)
    requires
        completed_line_window_at(bounds, text, typed, width, r, w1, w2, w3),
        0 < j,
        j + 1 < bounds.len(),
        bounds[0] == 0,
        bounds[j] <= text.len(),
        forall|a: int, b: int| 0 <= a < b < bounds.len() ==> bounds[a] < bounds[b],
        width == bounds[j] - bounds[0],
    ensures
        r.prev_line@.len() == width,
{
    lemma_max_width_achievable(bounds, 0, j);
    lemma_line_break_unique(bounds, 0, w1, j, width);
}

/// Copy `v[from..to]` into a fresh vector.
fn copy_range(v: &Vec<char>, from: usize, to: usize) -> (r: Vec<char>)
    requires
        from <= to <= v@.len(),
    ensures
        r@ == v@.subrange(from as int, to as int),
{
    let s = vstd::slice::slice_subrange(v.as_slice(), from, to);
    vstd::slice::slice_to_vec(s)
}

/// How one keystroke relates the buffer before and after: the reference
/// text, word starts and supplier are untouched; the typed text steps by
/// `spec_handle_char` and the match count follows it.
pub open spec fn stepped_char<Ws: WordSupplier>(
    pre: TextManager<Ws>,
    post: TextManager<Ws>,
    u: char,
) -> bool {
    &&& post.text@ == pre.text@
    &&& post.word_index@ == pre.word_index@
    &&& post.word_supplier == pre.word_supplier
    &&& post.user_text@ == spec_handle_char(pre.user_text@, pre.text@, u)
    &&& post.correct == count_matches(post.user_text@, post.text@)
}

/// How one backspace relates the buffer before and after.
pub open spec fn stepped_backspace<Ws: WordSupplier>(
    pre: TextManager<Ws>,
    post: TextManager<Ws>,
) -> bool {
    &&& post.text@ == pre.text@
    &&& post.word_index@ == pre.word_index@
    &&& post.word_supplier == pre.word_supplier
    &&& post.user_text@ == spec_handle_backspace(pre.user_text@)
    &&& post.correct == count_matches(post.user_text@, post.text@)
}

/// Typing one character and immediately backspacing it restores both the
/// typed text and the match count, for matching and mismatching characters
/// alike, whenever the keystroke was accepted (a reference character exists
/// at the cursor).
pub proof fn lemma_backspace_undoes_char(typed: Seq<char>, reference: Seq<char>, u: char)
    requires
        typed.len() < reference.len(),
    ensures
        spec_handle_backspace(spec_handle_char(typed, reference, u)) == typed,
        count_matches(spec_handle_backspace(spec_handle_char(typed, reference, u)), reference)
            == count_matches(typed, reference),
{
    assert(typed.push(u).drop_last() =~= typed);
}

} // verus!

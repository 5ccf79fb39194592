//! The piece queue that a page's comment may give.

use crate::board::PieceType;
use crate::text::chars_of;
use vstd::prelude::*;

verus! {

/// The longest run of moves that is played back.
pub const MAX_MOVES: usize = 40;

/// The pieces to play: the one in hold, the one that falls and those that
/// follow it.
#[derive(Clone, Debug, PartialEq, Eq)]
pub struct Queue {
    pub hold: Option<PieceType>,
    pub current: PieceType,
    pub next: Vec<PieceType>,
}

/// The letters of a run of pieces.
pub open spec fn letters(pieces: Seq<PieceType>) -> Seq<char> {
    Seq::new(pieces.len(), |i: int| pieces[i].spec_letter())
}

impl Queue {
    /// The letters of the piece in hold: one or none.
    pub open spec fn hold_letters(&self) -> Seq<char> {
        match self.hold {
            Some(piece) => seq![piece.spec_letter()],
            None => Seq::empty(),
        }
    }

    /// The comment that states this queue: `#Q=`, the piece in hold in
    /// square brackets, the falling piece in round brackets and the pieces
    /// that follow.
    pub open spec fn spec_text(&self) -> Seq<char> {
        seq!['#', 'Q', '=', '['] + self.hold_letters() + seq![']', '(', self.current.spec_letter(), ')']
            + letters(self.next@)
    }

    /// The number of moves to play back: one for each piece but the last,
    /// and no more than `MAX_MOVES`.
    pub open spec fn spec_moves(&self) -> nat {
        let pieces = self.next@.len() + self.hold_letters().len();
        if pieces < MAX_MOVES {
            pieces
        } else {
            MAX_MOVES as nat
        }
    }

    /// The number of moves to play back.
    pub fn moves(&self) -> (moves: usize)
        ensures
            moves == self.spec_moves(),
    {
        let following = self.next.len();
        if following >= MAX_MOVES {
            MAX_MOVES
        } else if self.hold.is_some() {
            following + 1
        } else {
            following
        }
    }

    /// Where each part of a queue stands in its comment.
    pub proof fn lemma_text_shape(&self)
        ensures
            ({
                let text = self.spec_text();
                let h = self.hold_letters().len() as int;
                &&& h == if self.hold is Some { 1int } else { 0int }
                &&& text.len() == 8 + h + self.next@.len()
                &&& text[0] == '#' && text[1] == 'Q' && text[2] == '=' && text[3] == '['
                &&& self.hold matches Some(piece) ==> text[4] == piece.spec_letter()
                &&& text[4 + h] == ']'
                &&& text[5 + h] == '('
                &&& text[6 + h] == self.current.spec_letter()
                &&& text[7 + h] == ')'
                &&& forall|i: int|
                    0 <= i < self.next@.len() ==> #[trigger] text[8 + h + i]
                        == self.next@[i].spec_letter()
            }),
    {
    }
}

/// A comment states one queue only: two queues with the same comment hold
/// the same pieces.
pub proof fn lemma_text_injective(first: Queue, second: Queue)
    requires
        first.spec_text() == second.spec_text(),
    ensures
        first.hold == second.hold,
        first.current == second.current,
        first.next@ == second.next@,
{
    first.lemma_text_shape();
    second.lemma_text_shape();
    let text = first.spec_text();
    let h = first.hold_letters().len() as int;
    assert(first.hold is Some <==> text[4] != ']');
    assert(second.hold is Some <==> text[4] != ']');
    assert(first.next@.len() == second.next@.len());
    assert forall|i: int| 0 <= i < first.next@.len() implies first.next@[i] == second.next@[i] by {
        assert(text[8 + h + i] == first.next@[i].spec_letter());
        assert(text[8 + h + i] == second.next@[i].spec_letter());
    }
    assert(first.next@ =~= second.next@);
}

/// Reads the queue that `comment` states, if it states one.
pub fn parse_queue(comment: &str) -> (queue: Option<Queue>)
    ensures
        queue matches Some(q) ==> comment@ == q.spec_text(),
        queue is None ==> forall|q: Queue| comment@ != #[trigger] q.spec_text(),
{
    let chars = chars_of(comment);
    let n = chars.len();
    if n < 8 || chars[0] != '#' || chars[1] != 'Q' || chars[2] != '=' || chars[3] != '[' {
        proof {
            assert forall|q: Queue| comment@ != #[trigger] q.spec_text() by {
                q.lemma_text_shape();
            }
        }
        return None;
    }
    let hold: Option<PieceType> = if chars[4] == ']' {
        None
    } else {
        match PieceType::from_char(chars[4]) {
            Some(piece) if chars[5] == ']' => Some(piece),
            _ => {
                proof {
                    assert forall|q: Queue| comment@ != #[trigger] q.spec_text() by {
                        q.lemma_text_shape();
                    }
                }
                return None;
            },
        }
    };
    let at: usize = if hold.is_some() {
        6
    } else {
        5
    };
    if n < at + 3 || chars[at] != '(' || chars[at + 2] != ')' {
        proof {
            assert forall|q: Queue| comment@ != #[trigger] q.spec_text() by {
                q.lemma_text_shape();
            }
        }
        return None;
    }
    let current = match PieceType::from_char(chars[at + 1]) {
        Some(piece) => piece,
        None => {
            proof {
                assert forall|q: Queue| comment@ != #[trigger] q.spec_text() by {
                    q.lemma_text_shape();
                }
            }
            return None;
        },
    };
    let mut next: Vec<PieceType> = Vec::new();
    let mut i: usize = at + 3;
    while i < n
        invariant
            at + 3 <= i <= n,
            n == chars@.len(),
            chars@ == comment@,
            at == 5 || at == 6,
            (at == 5) == (chars@[4] == ']'),
            next@.len() == i - (at + 3),
            forall|k: int|
                0 <= k < next@.len() ==> (#[trigger] next@[k]).spec_letter() == chars@[at + 3 + k],
        decreases n - i,
    {
        match PieceType::from_char(chars[i]) {
            Some(piece) => {
                next.push(piece);
            },
            None => {
                proof {
                    assert forall|q: Queue| comment@ != #[trigger] q.spec_text() by {
                        q.lemma_text_shape();
                        if comment@ == q.spec_text() {
                            let h = q.hold_letters().len() as int;
                            assert(at == 5 + h);
                            let k = i - (at + 3);
                            assert(q.spec_text()[8 + h + k] == q.next@[k].spec_letter());
                        }
                    }
                }
                return None;
            },
        }
        i += 1;
    }
    let queue = Queue { hold, current, next };
    proof {
        queue.lemma_text_shape();
        let text = queue.spec_text();
        assert(text.len() == comment@.len());
        assert forall|k: int| 0 <= k < text.len() implies text[k] == comment@[k] by {
            if k >= at + 3 {
                assert(text[8 + (at - 5) + (k - (at + 3))] == queue.next@[k - (at + 3)].spec_letter());
            }
        }
        assert(comment@ =~= text);
    }
    Some(queue)
}

} // verus!

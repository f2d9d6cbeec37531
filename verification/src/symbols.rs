//! The list of symbols, as it is given in one text.

use vstd::prelude::*;
use vstd::string::*;
use crate::scheduler::symbol_texts;

verus! {

/// The symbols that are tracked where none are named.
pub const DEFAULT_SYMBOLS: &'static str = "AAPL,MSFT,UBER,GOOG";

/// The pieces of `s` between its separators, in order. There is always one
/// piece more than there are separators, so a text without any is a single
/// piece, and pieces may be empty.
pub open spec fn split_on(s: Seq<char>, sep: char) -> Seq<Seq<char>>
    decreases s.len(),
{
    if s.len() == 0 {
        seq![Seq::empty()]
    } else {
        let before = split_on(s.drop_last(), sep);
        if s.last() == sep {
            before.push(Seq::empty())
        } else {
            before.drop_last().push(before.last().push(s.last()))
        }
    }
}

/// The pieces put together again, with a separator between each two.
pub open spec fn joined(pieces: Seq<Seq<char>>, sep: char) -> Seq<char>
    decreases pieces.len(),
{
    if pieces.len() == 0 {
        Seq::empty()
    } else if pieces.len() == 1 {
        pieces[0]
    } else {
        joined(pieces.drop_last(), sep).push(sep) + pieces.last()
    }
}

/// Splitting gives at least one piece, and none of the pieces holds a
/// separator.
pub proof fn lemma_split_pieces(s: Seq<char>, sep: char)
    ensures
        split_on(s, sep).len() >= 1,
        forall|i: int, j: int|
            0 <= i < split_on(s, sep).len() && 0 <= j < split_on(s, sep)[i].len()
                ==> split_on(s, sep)[i][j] != sep,
    decreases s.len(),
{
    if s.len() > 0 {
        lemma_split_pieces(s.drop_last(), sep);
    }
}

/// Joining what splitting gave yields the text that was split.
pub proof fn lemma_split_joins(s: Seq<char>, sep: char)
    ensures
        joined(split_on(s, sep), sep) == s,
    decreases s.len(),
{
    if s.len() == 0 {
    } else {
        let front = s.drop_last();
        let before = split_on(front, sep);
        lemma_split_joins(front, sep);
        lemma_split_pieces(front, sep);
        assert(front.push(s.last()) == s);
        if s.last() == sep {
            assert(before.push(Seq::empty()).drop_last() == before);
            assert(joined(before, sep).push(sep) + Seq::<char>::empty() =~= s);
        } else {
            let after = before.drop_last().push(before.last().push(s.last()));
            if before.len() == 1 {
                assert(after[0] == joined(before, sep).push(s.last()));
            } else {
                assert(after.drop_last() == before.drop_last());
                assert(joined(before.drop_last(), sep).push(sep) + before.last().push(s.last())
                    =~= (joined(before.drop_last(), sep).push(sep) + before.last()).push(
                    s.last(),
                ));
            }
        }
    }
}

/// Splits a list of symbols at its commas. Nothing is trimmed and nothing is
/// left out: an empty piece is a symbol like any other.
pub fn split_symbols(list: &str) -> (symbols: Vec<String>)
    ensures
        symbol_texts(symbols@) == split_on(list@, ','),
        joined(symbol_texts(symbols@), ',') == list@,
{
    let len: usize = list.unicode_len();
    let mut symbols: Vec<String> = Vec::new();
    let mut start: usize = 0;
    let mut i: usize = 0;
    proof {
        assert(list@.take(0) =~= Seq::<char>::empty());
        assert(symbol_texts(symbols@).push(list@.subrange(0, 0)) =~~= seq![Seq::<char>::empty()]);
    }
    while i < len
        invariant
            len == list@.len(),
            start <= i <= len,
            split_on(list@.take(i as int), ',') == symbol_texts(symbols@).push(
                list@.subrange(start as int, i as int),
            ),
        decreases len - i,
    {
        let ghost done = symbol_texts(symbols@);
        let ghost piece = list@.subrange(start as int, i as int);
        proof {
            assert(list@.take(i + 1).drop_last() == list@.take(i as int));
            assert(done.push(piece).drop_last() == done);
        }
        if list.get_char(i) == ',' {
            symbols.push(String::from_str(list.substring_char(start, i)));
            start = i + 1;
            proof {
                assert(symbol_texts(symbols@) =~~= done.push(piece));
                assert(list@.subrange(start as int, i + 1) =~= Seq::<char>::empty());
            }
        } else {
            proof {
                assert(piece.push(list@[i as int]) =~= list@.subrange(start as int, i + 1));
            }
        }
        i = i + 1;
    }
    let ghost done = symbol_texts(symbols@);
    symbols.push(String::from_str(list.substring_char(start, len)));
    proof {
        assert(list@.take(len as int) == list@);
        assert(symbol_texts(symbols@) =~~= done.push(list@.subrange(start as int, len as int)));
        lemma_split_joins(list@, ',');
    }
    symbols
}

} // verus!

//! Splitting a message into pieces that fit Discord's length limit,
//! preferring to cut just after a newline.
use vstd::prelude::*;
use vstd::string::*;

use crate::text::chars_of;

verus! {

/// Discord's limit on the length of one message, in characters.
pub const DISCORD_MAX_LEN: usize = 2000;

/// The index of the last newline among the first `n` characters of `s`, or -1 if there is none.
pub open spec fn last_newline(s: Seq<char>, n: int) -> int
    decreases n,
{
    if n <= 0 {
        -1
    } else if s[n - 1] == '\n' {
        n - 1
    } else {
        last_newline(s, n - 1)
    }
}

/// Where the first piece of an over-long message ends: just after the last newline
/// within the first `DISCORD_MAX_LEN` characters, or at `DISCORD_MAX_LEN` if there is none.
pub open spec fn chunk_end(s: Seq<char>) -> int {
    let p = last_newline(s, DISCORD_MAX_LEN as int);
    if 0 <= p < DISCORD_MAX_LEN {
        p + 1
    } else {
        DISCORD_MAX_LEN as int
    }
}

/// The pieces that the cutting loop produces from the characters `s`.
pub open spec fn chunks_of(s: Seq<char>) -> Seq<Seq<char>>
    decreases s.len(),
{
    if s.len() == 0 {
        Seq::empty()
    } else if s.len() <= DISCORD_MAX_LEN {
        seq![s]
    } else {
        seq![s.subrange(0, chunk_end(s))] + chunks_of(s.subrange(chunk_end(s), s.len() as int))
    }
}

/// The pieces of a message with the characters `s`: the message itself when it
/// fits (even when empty), else the pieces of the cutting loop.
pub open spec fn message_chunks(s: Seq<char>) -> Seq<Seq<char>> {
    if s.len() <= DISCORD_MAX_LEN {
        seq![s]
    } else {
        chunks_of(s)
    }
}

/// The characters of each piece.
pub open spec fn pieces_view(pieces: Seq<&str>) -> Seq<Seq<char>> {
    pieces.map_values(|c: &str| c@)
}

proof fn lemma_last_newline(s: Seq<char>, n: int)
    requires
        0 <= n <= s.len(),
    ensures
        -1 <= last_newline(s, n) < n,
        last_newline(s, n) >= 0 ==> s[last_newline(s, n)] == '\n',
        forall|j: int| last_newline(s, n) < j < n ==> s[j] != '\n',
    decreases n,
{
    if n > 0 && s[n - 1] != '\n' {
        lemma_last_newline(s, n - 1);
    }
}

/// Where the loop cuts the rest `chars[start..]`, counted from `start`.
fn cut_position(chars: &Vec<char>, start: usize) -> (cut: usize)
    requires
        start <= chars@.len(),
        chars@.len() - start > DISCORD_MAX_LEN,
    ensures
        cut == chunk_end(chars@.subrange(start as int, chars@.len() as int)),
        1 <= cut <= DISCORD_MAX_LEN,
{
    let ghost rest = chars@.subrange(start as int, chars@.len() as int);
    let n = chars.len();
    let mut i: usize = DISCORD_MAX_LEN;
    while i > 0
        invariant
            n == chars@.len(),
            0 <= i <= DISCORD_MAX_LEN,
            start <= chars@.len(),
            chars@.len() - start > DISCORD_MAX_LEN,
            rest == chars@.subrange(start as int, chars@.len() as int),
            last_newline(rest, DISCORD_MAX_LEN as int) == last_newline(rest, i as int),
        decreases i,
    {
        assert(rest[i - 1] == chars@[start + (i - 1)]);
        if chars[start + (i - 1)] == '\n' {
            return i;
        }
        i -= 1;
    }
    DISCORD_MAX_LEN
}

/// Splits `text` into pieces of at most `DISCORD_MAX_LEN` characters, cutting
/// just after the last newline that fits, else at the limit. A text that fits is
/// returned whole.
pub fn split_message(text: &str) -> (chunks: Vec<&str>)
    ensures
        pieces_view(chunks@) == message_chunks(text@),
{
    let chars = chars_of(text);
    let n = chars.len();
    if n <= DISCORD_MAX_LEN {
        let v = vec![text];
        assert(pieces_view(v@) =~= seq![text@]);
        return v;
    }
    let ghost whole = text@;
    let mut chunks: Vec<&str> = Vec::new();
    let mut start: usize = 0;
    assert(pieces_view(chunks@) =~= Seq::<Seq<char>>::empty());
    assert(whole.subrange(0, n as int) =~= whole);
    loop
        invariant_except_break
            chars@ == whole,
            whole == text@,
            n == whole.len(),
            start <= n,
            pieces_view(chunks@) + chunks_of(whole.subrange(start as int, n as int)) == chunks_of(
                whole,
            ),
        ensures
            pieces_view(chunks@) == chunks_of(whole),
        decreases n - start,
    {
        let ghost rest = whole.subrange(start as int, n as int);
        if start == n {
            assert(rest.len() == 0);
            assert(pieces_view(chunks@) + chunks_of(rest) =~= pieces_view(chunks@));
            break;
        }
        if n - start <= DISCORD_MAX_LEN {
            let ghost before = pieces_view(chunks@);
            let piece = text.substring_char(start, n);
            chunks.push(piece);
            assert(pieces_view(chunks@) =~= before.push(rest));
            assert(pieces_view(chunks@) =~= before + chunks_of(rest));
            break;
        }
        let cut = cut_position(&chars, start);
        let piece = text.substring_char(start, start + cut);
        let ghost before = pieces_view(chunks@);
        chunks.push(piece);
        let ghost tail = whole.subrange(start + cut, n as int);
        assert(rest.subrange(0, cut as int) =~= piece@);
        assert(rest.subrange(cut as int, rest.len() as int) =~= tail);
        assert(pieces_view(chunks@) =~= before.push(piece@));
        assert(chunks_of(rest) =~= seq![piece@] + chunks_of(tail));
        assert(pieces_view(chunks@) + chunks_of(tail) =~= before + chunks_of(rest));
        start = start + cut;
    }
    chunks
}

/// Joining the pieces of a message, in order, gives back its characters exactly.
pub proof fn law_pieces_rejoin(s: Seq<char>)
    ensures
        message_chunks(s).flatten() == s,
{
    if s.len() <= DISCORD_MAX_LEN {
        seq![s].lemma_flatten_one_element();
    } else {
        lemma_chunks_rejoin(s);
    }
}

proof fn lemma_chunks_rejoin(s: Seq<char>)
    ensures
        chunks_of(s).flatten() == s,
    decreases s.len(),
{
    if s.len() == 0 {
    } else if s.len() <= DISCORD_MAX_LEN {
        seq![s].lemma_flatten_one_element();
    } else {
        lemma_last_newline(s, DISCORD_MAX_LEN as int);
        let e = chunk_end(s);
        let tail = s.subrange(e, s.len() as int);
        lemma_chunks_rejoin(tail);
        let pieces = chunks_of(s);
        assert(pieces.drop_first() =~= chunks_of(tail));
        assert(s.subrange(0, e) + tail =~= s);
    }
}

/// No piece is longer than `DISCORD_MAX_LEN` characters, and a message that is not
/// empty has no empty piece.
pub proof fn law_pieces_fit(s: Seq<char>)
    ensures
        forall|i: int|
            0 <= i < message_chunks(s).len() ==> #[trigger] message_chunks(s)[i].len()
                <= DISCORD_MAX_LEN,
        s.len() > 0 ==> forall|i: int|
            0 <= i < message_chunks(s).len() ==> #[trigger] message_chunks(s)[i].len() > 0,
{
    if s.len() > DISCORD_MAX_LEN {
        lemma_chunks_fit(s);
    }
}

proof fn lemma_chunks_fit(s: Seq<char>)
    ensures
        forall|i: int|
            0 <= i < chunks_of(s).len() ==> 0 < #[trigger] chunks_of(s)[i].len()
                <= DISCORD_MAX_LEN,
    decreases s.len(),
{
    if s.len() > DISCORD_MAX_LEN {
        lemma_last_newline(s, DISCORD_MAX_LEN as int);
        let e = chunk_end(s);
        let tail = s.subrange(e, s.len() as int);
        lemma_chunks_fit(tail);
        assert forall|i: int| 0 <= i < chunks_of(s).len() implies 0 < #[trigger] chunks_of(
            s,
        )[i].len() <= DISCORD_MAX_LEN by {
            if i > 0 {
                assert(chunks_of(s)[i] == chunks_of(tail)[i - 1]);
            }
        }
    }
}

/// A message that fits is sent as one piece.
pub proof fn law_short_message_is_one_piece(s: Seq<char>)
    requires
        s.len() <= DISCORD_MAX_LEN,
    ensures
        message_chunks(s) == seq![s],
{
}

/// Every piece but the last is cut just after a newline, or, where its first
/// `DISCORD_MAX_LEN` characters hold no newline, is exactly `DISCORD_MAX_LEN` characters long.
pub proof fn law_pieces_end_at_newline_or_limit(s: Seq<char>)
    ensures
        forall|i: int|
            0 <= i < message_chunks(s).len() - 1 ==> {
                let piece = #[trigger] message_chunks(s)[i];
                ||| piece.last() == '\n'
                ||| (piece.len() == DISCORD_MAX_LEN && !piece.contains('\n'))
            },
    decreases s.len(),
{
    if s.len() > DISCORD_MAX_LEN {
        lemma_last_newline(s, DISCORD_MAX_LEN as int);
        let e = chunk_end(s);
        let tail = s.subrange(e, s.len() as int);
        law_pieces_end_at_newline_or_limit(tail);
        if tail.len() <= DISCORD_MAX_LEN {
            if tail.len() == 0 {
                assert(chunks_of(tail) =~= Seq::<Seq<char>>::empty());
            }
        }
        let piece = s.subrange(0, e);
        if last_newline(s, DISCORD_MAX_LEN as int) < 0 {
            assert forall|j: int| 0 <= j < piece.len() implies piece[j] != '\n' by {
                assert(piece[j] == s[j]);
            }
        }
        assert forall|i: int| 0 <= i < message_chunks(s).len() - 1 implies {
            let piece = #[trigger] message_chunks(s)[i];
            ||| piece.last() == '\n'
            ||| (piece.len() == DISCORD_MAX_LEN && !piece.contains('\n'))
        } by {
            if i > 0 {
                assert(message_chunks(s)[i] == chunks_of(tail)[i - 1]);
                if tail.len() == 0 {
                    assert(chunks_of(tail).len() == 0);
                } else if tail.len() <= DISCORD_MAX_LEN {
                    assert(chunks_of(tail).len() == 1);
                } else {
                    assert(message_chunks(tail) == chunks_of(tail));
                }
            }
        }
    }
}

/// `piece`, taken from the front of `rest`, is cut just after the last newline
/// among the first `DISCORD_MAX_LEN` characters of `rest`, or is exactly
/// `DISCORD_MAX_LEN` long when those hold no newline.
pub open spec fn cut_after_last_newline(rest: Seq<char>, piece: Seq<char>) -> bool {
    &&& rest.len() > DISCORD_MAX_LEN
    &&& 0 < piece.len() <= DISCORD_MAX_LEN
    &&& piece == rest.subrange(0, piece.len() as int)
    &&& forall|j: int| piece.len() <= j < DISCORD_MAX_LEN ==> rest[j] != '\n'
    &&& piece.last() == '\n' || (piece.len() == DISCORD_MAX_LEN && forall|j: int|
        0 <= j < DISCORD_MAX_LEN ==> rest[j] != '\n')
}

proof fn lemma_chunks_cut_after_last_newline(s: Seq<char>)
    ensures
        forall|i: int|
            0 <= i < chunks_of(s).len() - 1 ==> cut_after_last_newline(
                chunks_of(s).subrange(i, chunks_of(s).len() as int).flatten(),
                #[trigger] chunks_of(s)[i],
            ),
    decreases s.len(),
{
    if s.len() > DISCORD_MAX_LEN {
        lemma_last_newline(s, DISCORD_MAX_LEN as int);
        let e = chunk_end(s);
        let tail = s.subrange(e, s.len() as int);
        let cs = chunks_of(s);
        let ct = chunks_of(tail);
        lemma_chunks_cut_after_last_newline(tail);
        assert(cs =~= seq![s.subrange(0, e)] + ct);
        assert forall|i: int| 0 <= i < cs.len() - 1 implies cut_after_last_newline(
            cs.subrange(i, cs.len() as int).flatten(),
            #[trigger] cs[i],
        ) by {
            if i == 0 {
                assert(cs.subrange(0, cs.len() as int) =~= cs);
                lemma_chunks_rejoin(s);
                let piece = s.subrange(0, e);
                assert(cs[0] == piece);
                assert(piece =~= s.subrange(0, piece.len() as int));
                if last_newline(s, DISCORD_MAX_LEN as int) >= 0 {
                    assert(piece.last() == s[e - 1]);
                }
            } else {
                assert(cs[i] == ct[i - 1]);
                assert(cs.subrange(i, cs.len() as int) =~= ct.subrange(i - 1, ct.len() as int));
            }
        }
    }
}

/// For every piece of a message but the last, the cut is just after the last
/// newline among the first `DISCORD_MAX_LEN` characters of what remains of the
/// message, so that no newline lies between the piece's end and the limit; when
/// those characters hold no newline, the piece is exactly `DISCORD_MAX_LEN` long.
pub proof fn law_cut_after_last_newline(s: Seq<char>)
    ensures
        forall|i: int|
            0 <= i < message_chunks(s).len() - 1 ==> cut_after_last_newline(
                message_chunks(s).subrange(i, message_chunks(s).len() as int).flatten(),
                #[trigger] message_chunks(s)[i],
            ),
{
    if s.len() > DISCORD_MAX_LEN {
        lemma_chunks_cut_after_last_newline(s);
    }
}

} // verus!

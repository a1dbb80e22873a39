//! Verified text helpers: splitting on a separator, joining with a
//! separator, and rendering unsigned integers in decimal.
//!
//! A proposal's choices arrive as one separator-delimited string and leave,
//! in display form, as `content:tally` pieces joined back together; these
//! helpers give both directions exact specifications.

use vstd::prelude::*;

verus! {

/// The views of a sequence of owned strings.
pub open spec fn views(ps: Seq<String>) -> Seq<Seq<char>> {
    ps.map_values(|p: String| p@)
}

/// Splitting `s` on `sep`: the pieces between separator occurrences, in
/// order. There is always one piece more than there are separators; an empty
/// input yields one empty piece.
pub open spec fn spec_split(s: Seq<char>, sep: char) -> Seq<Seq<char>>
    decreases s.len(),
{
    if s.len() == 0 {
        seq![Seq::<char>::empty()]
    } else {
        let prev = spec_split(s.drop_last(), sep);
        if s.last() == sep {
            prev.push(Seq::<char>::empty())
        } else {
            prev.update(prev.len() - 1, prev.last().push(s.last()))
        }
    }
}

/// A split always produces at least one piece, and at most one more than
/// the input's length.
pub proof fn lemma_split_count(s: Seq<char>, sep: char)
    ensures
        1 <= spec_split(s, sep).len() <= s.len() + 1,
    decreases s.len(),
{
    if s.len() > 0 {
        lemma_split_count(s.drop_last(), sep);
    }
}

/// Splits `s` on the character `sep`.
pub fn split_str(s: &str, sep: char) -> (r: Vec<String>)
    ensures
        views(r@) =~~= spec_split(s@, sep),
        r@.len() >= 1,
{
    let n = s.unicode_len();
    let mut pieces: Vec<String> = Vec::new();
    let mut start: usize = 0;
    let mut i: usize = 0;
    while i < n
        invariant
            n == s@.len(),
            0 <= start <= i <= n,
            views(pieces@).push(s@.subrange(start as int, i as int)) =~~= spec_split(
                s@.take(i as int),
                sep,
            ),
        decreases n - i,
    {
        let ghost prev_pieces = pieces@;
        let ghost prev_start = start as int;
        let c = s.get_char(i);
        if c == sep {
            let piece = s.substring_char(start, i).to_owned();
            pieces.push(piece);
            start = i + 1;
        }
        i += 1;
        proof {
            let t = s@.take(i as int);
            assert(t.drop_last() =~= s@.take(i - 1));
            assert(t.last() == s@[i - 1]);
            if c == sep {
                assert(views(pieces@) =~~= views(prev_pieces).push(
                    s@.subrange(prev_start, i - 1),
                ));
                assert(s@.subrange(start as int, i as int) =~= Seq::<char>::empty());
                assert(views(pieces@).push(s@.subrange(start as int, i as int)) =~~= spec_split(
                    t,
                    sep,
                ));
            } else {
                let old_split = spec_split(s@.take(i - 1), sep);
                assert(old_split.last() == s@.subrange(prev_start, i - 1));
                assert(s@.subrange(prev_start, i - 1).push(s@[i - 1]) =~= s@.subrange(
                    prev_start,
                    i as int,
                ));
                assert(views(pieces@).push(s@.subrange(start as int, i as int)) =~~= spec_split(
                    t,
                    sep,
                ));
            }
        }
    }
    let last_piece = s.substring_char(start, n).to_owned();
    pieces.push(last_piece);
    proof {
        assert(s@.take(n as int) =~= s@);
        assert(views(pieces@) =~~= spec_split(s@, sep));
    }
    pieces
}

/// Joining pieces with `sep` between neighbours.
pub open spec fn spec_join(ps: Seq<Seq<char>>, sep: Seq<char>) -> Seq<char>
    decreases ps.len(),
{
    if ps.len() == 0 {
        Seq::<char>::empty()
    } else if ps.len() == 1 {
        ps[0]
    } else {
        spec_join(ps.drop_last(), sep) + sep + ps.last()
    }
}

/// Joins `pieces` with `sep` between neighbours.
pub fn join_str(pieces: &Vec<String>, sep: &str) -> (r: String)
    ensures
        r@ =~= spec_join(views(pieces@), sep@),
{
    let n = pieces.len();
    let mut r = String::new();
    let mut i: usize = 0;
    while i < n
        invariant
            n == pieces@.len(),
            0 <= i <= n,
            r@ =~= spec_join(views(pieces@.take(i as int)), sep@),
        decreases n - i,
    {
        if i > 0 {
            r.append(sep);
        }
        r.append(pieces[i].as_str());
        i += 1;
        proof {
            let t = views(pieces@.take(i as int));
            assert(t.drop_last() =~= views(pieces@.take(i - 1)));
            assert(t.last() == pieces@[i - 1]@);
            if i > 1 {
                assert(r@ =~= spec_join(t.drop_last(), sep@) + sep@ + t.last());
            } else {
                assert(t.len() == 1);
            }
        }
    }
    proof {
        assert(pieces@.take(n as int) =~= pieces@);
    }
    r
}

/// The decimal digit character for `d`, a value below ten.
pub open spec fn spec_digit(d: int) -> char {
    if d == 0 {
        '0'
    } else if d == 1 {
        '1'
    } else if d == 2 {
        '2'
    } else if d == 3 {
        '3'
    } else if d == 4 {
        '4'
    } else if d == 5 {
        '5'
    } else if d == 6 {
        '6'
    } else if d == 7 {
        '7'
    } else if d == 8 {
        '8'
    } else {
        '9'
    }
}

/// The decimal rendering of `n`, most significant digit first, no leading
/// zeroes (a single `'0'` for zero).
pub open spec fn spec_u64_dec(n: int) -> Seq<char>
    recommends
        n >= 0,
    decreases n,
{
    if n < 10 {
        seq![spec_digit(n)]
    } else {
        spec_u64_dec(n / 10).push(spec_digit(n % 10))
    }
}

/// A one-character string holding the digit for `d`.
fn digit_str(d: u64) -> (r: &'static str)
    requires
        d < 10,
    ensures
        r@ =~= seq![spec_digit(d as int)],
{
    proof {
        reveal_strlit("0");
        reveal_strlit("1");
        reveal_strlit("2");
        reveal_strlit("3");
        reveal_strlit("4");
        reveal_strlit("5");
        reveal_strlit("6");
        reveal_strlit("7");
        reveal_strlit("8");
        reveal_strlit("9");
    }
    if d == 0 {
        "0"
    } else if d == 1 {
        "1"
    } else if d == 2 {
        "2"
    } else if d == 3 {
        "3"
    } else if d == 4 {
        "4"
    } else if d == 5 {
        "5"
    } else if d == 6 {
        "6"
    } else if d == 7 {
        "7"
    } else if d == 8 {
        "8"
    } else {
        "9"
    }
}

/// Renders `n` in decimal.
pub fn u64_to_dec(n: u64) -> (r: String)
    ensures
        r@ =~= spec_u64_dec(n as int),
    decreases n,
{
    if n < 10 {
        digit_str(n).to_owned()
    } else {
        let mut r = u64_to_dec(n / 10);
        r.append(digit_str(n % 10));
        proof {
            assert(r@ =~= spec_u64_dec(n as int / 10).push(spec_digit(n as int % 10)));
        }
        r
    }
}

} // verus!

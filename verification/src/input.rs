//! Parsing of a player's move request: splitting the typed line into one or
//! two coordinates and validating each against the board's files A–H and
//! ranks 1–8. Reading the line itself is the caller's affair.

use vstd::prelude::*;

verus! {

/// The characters on which a typed line is split.
pub open spec fn spec_is_space(c: char) -> bool {
    c == ' ' || c == '\t' || c == '\n' || c == '\r'
}

/// The tokens of `s` from index `i` on, with `cur` the partial token read so
/// far and `out` the tokens already complete.
pub open spec fn spec_tokens_from(
    s: Seq<char>,
    i: int,
    cur: Seq<char>,
    out: Seq<Seq<char>>,
) -> Seq<Seq<char>>
    decreases s.len() - i,
{
    if i < 0 || i >= s.len() {
        if cur.len() > 0 {
            out.push(cur)
        } else {
            out
        }
    } else if spec_is_space(s[i]) {
        if cur.len() > 0 {
            spec_tokens_from(s, i + 1, Seq::empty(), out.push(cur))
        } else {
            spec_tokens_from(s, i + 1, Seq::empty(), out)
        }
    } else {
        spec_tokens_from(s, i + 1, cur.push(s[i]), out)
    }
}

/// The maximal runs of non-space characters of `s`, in order.
pub open spec fn spec_tokens(s: Seq<char>) -> Seq<Seq<char>> {
    spec_tokens_from(s, 0, Seq::empty(), Seq::empty())
}

/// A well-formed coordinate: exactly two characters, a file `A`..=`H` and a
/// rank `1`..=`8`.
pub open spec fn spec_valid_coordinate(s: Seq<char>) -> bool {
    &&& s.len() == 2
    &&& 'A' as u32 <= s[0] as u32 <= 'H' as u32
    &&& '1' as u32 <= s[1] as u32 <= '8' as u32
}

/// The numeric square a valid coordinate token names: file and rank, 1..=8.
pub open spec fn spec_coord_of(s: Seq<char>) -> (u8, u8) {
    ((s[0] as u32 - 'A' as u32 + 1) as u8, (s[1] as u32 - '1' as u32 + 1) as u8)
}

/// What a typed line means: one coordinate (a request to show that piece's
/// moves), or two distinct coordinates (a move request); anything else is
/// rejected.
pub open spec fn spec_parse_input(s: Seq<char>) -> Option<((u8, u8), Option<(u8, u8)>)> {
    let t = spec_tokens(s);
    if t.len() < 1 || t.len() > 2 {
        None
    } else if !spec_valid_coordinate(t[0]) {
        None
    } else if t.len() == 2 && (!spec_valid_coordinate(t[1]) || t[0] == t[1]) {
        None
    } else if t.len() == 2 {
        Some((spec_coord_of(t[0]), Some(spec_coord_of(t[1]))))
    } else {
        Some((spec_coord_of(t[0]), None))
    }
}

/// Validates one coordinate token: a file letter `A`..=`H` followed by a
/// rank digit `1`..=`8`.
pub fn validate_coordinate(coordinate: &str) -> (r: bool)
    ensures
        r == spec_valid_coordinate(coordinate@),
{
    if coordinate.unicode_len() != 2 {
        return false;
    }
    let c0 = coordinate.get_char(0) as u32;
    let c1 = coordinate.get_char(1) as u32;
    ('A' as u32) <= c0 && c0 <= ('H' as u32) && ('1' as u32) <= c1 && c1 <= ('8' as u32)
}

fn valid_coordinate_chars(v: &Vec<char>) -> (r: bool)
    ensures
        r == spec_valid_coordinate(v@),
{
    if v.len() != 2 {
        return false;
    }
    let c0 = v[0] as u32;
    let c1 = v[1] as u32;
    ('A' as u32) <= c0 && c0 <= ('H' as u32) && ('1' as u32) <= c1 && c1 <= ('8' as u32)
}

/// The contents of a token list.
spec fn tokens_view(toks: Vec<Vec<char>>) -> Seq<Seq<char>> {
    Seq::new(toks@.len(), |i: int| toks@[i]@)
}

/// Parses one typed line (already uppercased by the caller) into a validated
/// request: the square of a piece whose moves should be shown, or an origin
/// and a distinct destination square. Returns exactly [`spec_parse_input`]
/// of the line; `None` is the rejection the player is re-prompted on.
pub fn parse_input(input: &str) -> (r: Option<((u8, u8), Option<(u8, u8)>)>)
    ensures
        r == spec_parse_input(input@),
{
    let n = input.unicode_len();
    let mut toks: Vec<Vec<char>> = Vec::new();
    let mut cur: Vec<char> = Vec::new();
    let mut i: usize = 0;
    proof {
        assert(tokens_view(toks) =~= Seq::<Seq<char>>::empty());
        assert(cur@ =~= Seq::<char>::empty());
    }
    while i < n
        invariant
            n == input@.len(),
            0 <= i <= n,
            spec_tokens(input@) == spec_tokens_from(input@, i as int, cur@, tokens_view(toks)),
        decreases n - i,
    {
        let c = input.get_char(i);
        if c == ' ' || c == '\t' || c == '\n' || c == '\r' {
            proof {
                if cur@.len() == 0 {
                    assert(cur@ =~= Seq::<char>::empty());
                }
            }
            if cur.len() > 0 {
                let ghost old_toks = tokens_view(toks);
                toks.push(cur);
                proof {
                    assert(tokens_view(toks) =~= old_toks.push(cur@));
                }
                cur = Vec::new();
                proof {
                    assert(cur@ =~= Seq::<char>::empty());
                }
            }
        } else {
            cur.push(c);
        }
        i += 1;
    }
    if cur.len() > 0 {
        let ghost old_toks = tokens_view(toks);
        toks.push(cur);
        proof {
            assert(tokens_view(toks) =~= old_toks.push(cur@));
        }
    }
    let ghost t = spec_tokens(input@);
    proof {
        assert(t == tokens_view(toks));
    }
    if toks.len() < 1 || toks.len() > 2 {
        return None;
    }
    let t0 = &toks[0];
    proof {
        assert(t0@ == t[0]);
    }
    if !valid_coordinate_chars(t0) {
        return None;
    }
    let from = ((t0[0] as u32 - 'A' as u32 + 1) as u8, (t0[1] as u32 - '1' as u32 + 1) as u8);
    if toks.len() == 2 {
        let t1 = &toks[1];
        proof {
            assert(t1@ == t[1]);
        }
        if !valid_coordinate_chars(t1) {
            return None;
        }
        let same = t0[0] == t1[0] && t0[1] == t1[1];
        proof {
            if same {
                assert(t0@ =~= t1@);
            } else {
                assert(t0@ != t1@);
            }
        }
        if same {
            return None;
        }
        let to = ((t1[0] as u32 - 'A' as u32 + 1) as u8, (t1[1] as u32 - '1' as u32 + 1) as u8);
        Some((from, Some(to)))
    } else {
        Some((from, None))
    }
}

} // verus!

//! The ship submission format: a ship is written as semicolon-separated
//! `"x,y"` pairs. The parser is strict: any malformed pair is a hard
//! `Invalid` error rather than being dropped, so a submission either parses
//! completely or is rejected as a whole.

use crate::board::{Coordinate, BOARD_SIZE};
use crate::GameError;
use vstd::prelude::*;
use vstd::string::StrSliceExecFns;
use vstd::string::StringExecFns;

verus! {

/// Whether a character is a decimal digit.
pub open spec fn is_digit(c: char) -> bool {
    48 <= c as u32 <= 57
}

/// The numeric value of a digit character.
pub open spec fn digit_val(c: char) -> nat {
    (c as u32 - 48) as nat
}

/// The count of leading digit characters.
pub open spec fn digit_run(s: Seq<char>) -> nat
    decreases s.len(),
{
    if s.len() == 0 || !is_digit(s[0]) {
        0
    } else {
        1 + digit_run(s.skip(1))
    }
}

/// The value of the first `k` characters read as a decimal number.
pub open spec fn digits_val(s: Seq<char>, k: int) -> nat
    decreases k,
{
    if k <= 0 {
        0
    } else {
        digits_val(s, k - 1) * 10 + digit_val(s[k - 1])
    }
}

/// The leading digit run never passes the end of the string.
proof fn lemma_digit_run_le(s: Seq<char>)
    ensures
        digit_run(s) <= s.len(),
    decreases s.len(),
{
    if s.len() != 0 && is_digit(s[0]) {
        lemma_digit_run_le(s.skip(1));
    }
}

/// The leading digit run is exactly the count of digits before the first
/// non-digit character (or the end).
proof fn lemma_digit_run_exact(s: Seq<char>, k: int)
    requires
        0 <= k <= s.len(),
        forall|m: int| 0 <= m < k ==> is_digit(#[trigger] s[m]),
        k == s.len() || !is_digit(s[k]),
    ensures
        digit_run(s) == k,
    decreases k,
{
    if k == 0 {
    } else {
        let t = s.skip(1);
        assert(forall|m: int| 0 <= m < k - 1 ==> is_digit(#[trigger] t[m]));
        lemma_digit_run_exact(t, k - 1);
    }
}

/// One parsed `"x,y"` pair and the unread remainder of the input.
pub open spec fn parse_pair(s: Seq<char>) -> Option<((nat, nat), Seq<char>)> {
    let k1 = digit_run(s) as int;
    if k1 == 0 {
        None
    } else {
        let rest1 = s.skip(k1);
        if rest1.len() == 0 || rest1[0] != ',' {
            None
        } else {
            let s2 = rest1.skip(1);
            let k2 = digit_run(s2) as int;
            if k2 == 0 {
                None
            } else {
                Some(((digits_val(s, k1), digits_val(s2, k2)), s2.skip(k2)))
            }
        }
    }
}

/// The full grammar: one or more pairs separated by single semicolons,
/// spanning the whole input. `None` means the input is malformed.
pub open spec fn parse_pairs(s: Seq<char>) -> Option<Seq<(nat, nat)>>
    decreases s.len(),
    via parse_pairs_dec
{
    match parse_pair(s) {
        None => None,
        Some((p, rest)) => {
            if rest.len() == 0 {
                Some(seq![p])
            } else if rest[0] == ';' {
                match parse_pairs(rest.skip(1)) {
                    None => None,
                    Some(ps) => Some(seq![p] + ps),
                }
            } else {
                None
            }
        },
    }
}

#[via_fn]
proof fn parse_pairs_dec(s: Seq<char>) {
    lemma_digit_run_le(s);
    let k1 = digit_run(s) as int;
    if 0 < k1 && k1 < s.len() {
        lemma_digit_run_le(s.skip(k1).skip(1));
    }
}

/// Every parsed value fits on the board.
pub open spec fn pairs_in_range(ps: Seq<(nat, nat)>) -> bool {
    forall|k: int|
        0 <= k < ps.len() ==> (#[trigger] ps[k]).0 < BOARD_SIZE && ps[k].1 < BOARD_SIZE
}

/// The coordinates a parsed pair list denotes.
pub open spec fn coords_of_pairs(ps: Seq<(nat, nat)>) -> Seq<Coordinate> {
    Seq::new(ps.len(), |i: int| Coordinate { x: ps[i].0 as u8, y: ps[i].1 as u8 })
}

/// A successfully parsed list starts with the first parsed pair.
proof fn lemma_parse_pairs_head(s: Seq<char>)
    ensures
        parse_pairs(s) matches Some(ps) ==> ({
            &&& parse_pair(s) matches Some(pr)
            &&& ps.len() >= 1
            &&& ps[0] == parse_pair(s)->Some_0.0
        }),
{
    reveal_with_fuel(parse_pairs, 1);
    if parse_pairs(s) is Some {
        match parse_pair(s) {
            None => {
                assert(false);
            },
            Some((p, rest)) => {
                if rest.len() == 0 {
                } else if rest[0] == ';' {
                } else {
                    assert(false);
                }
            },
        }
    }
}

/// Scans the digit run starting at `start` and reads its decimal value,
/// saturating at 1000 so oversized numbers are still detected exactly.
fn scan_number(s: &str, start: usize, n: usize) -> (res: (usize, u32))
    requires
        n == s@.len(),
        start <= n,
    ensures
        ({
            let t = s@.skip(start as int);
            let k = digit_run(t) as int;
            &&& start <= res.0 <= n
            &&& res.0 - start == k
            &&& (digits_val(t, k) < 1000 ==> res.1 == digits_val(t, k))
            &&& (digits_val(t, k) >= 1000 ==> res.1 >= 1000)
            &&& res.1 <= 9999
        }),
{
    let ghost t = s@.skip(start as int);
    let mut j: usize = start;
    let mut val: u32 = 0;
    let mut done = false;
    while !done && j < n
        invariant
            start <= j <= n,
            n == s@.len(),
            t == s@.skip(start as int),
            forall|m: int| start <= m < j ==> is_digit(#[trigger] s@[m]),
            done ==> j < n && !is_digit(s@[j as int]),
            digits_val(t, j - start) < 1000 ==> val == digits_val(t, j - start),
            digits_val(t, j - start) >= 1000 ==> val >= 1000,
            val <= 9999,
        decreases n - j + (if done { 0int } else { 1int }),
    {
        let c = s.get_char(j);
        let u = c as u32;
        if 48 <= u && u <= 57 {
            proof {
                assert(t[j - start] == s@[j as int]);
                assert(digits_val(t, j - start + 1) == digits_val(t, j - start) * 10 + digit_val(
                    t[j - start],
                ));
            }
            if val < 1000 {
                val = val * 10 + (u - 48);
            }
            j = j + 1;
        } else {
            done = true;
        }
    }
    proof {
        assert(forall|m: int| 0 <= m < j - start ==> t[m] == s@[start + m]);
        assert(forall|m: int| 0 <= m < j - start ==> is_digit(#[trigger] t[m]));
        if (j as int) - (start as int) < t.len() {
            assert(t[j - start] == s@[j as int]);
        }
        lemma_digit_run_exact(t, j - start);
    }
    (j, val)
}

/// Parses a ship group written as `"x,y;x,y;..."`.
///
/// The grammar is strict: the input must be one or more `digits,digits`
/// pairs separated by single semicolons, with no other characters. A
/// malformed input or an out-of-range coordinate is an `Invalid` error.
pub fn parse_coords(s: &str) -> (r: Result<Vec<Coordinate>, GameError>)
    ensures
        r is Ok <==> (parse_pairs(s@) matches Some(ps) && pairs_in_range(ps)),
        r matches Ok(v) ==> (parse_pairs(s@) matches Some(ps) && v@ == coords_of_pairs(ps)),
        r matches Err(e) ==> e is Invalid,
{
    let n = s.unicode_len();
    let mut out: Vec<Coordinate> = Vec::new();
    let ghost mut acc: Seq<(nat, nat)> = Seq::empty();
    let mut i: usize = 0;
    proof {
        assert(s@.skip(0) =~= s@);
        if parse_pairs(s@) is Some {
            assert(acc + parse_pairs(s@)->Some_0 =~= parse_pairs(s@)->Some_0);
        }
    }
    loop
        invariant
            i <= n,
            n == s@.len(),
            pairs_in_range(acc),
            out@ == coords_of_pairs(acc),
            parse_pairs(s@) == (match parse_pairs(s@.skip(i as int)) {
                None => None::<Seq<(nat, nat)>>,
                Some(rest) => Some(acc + rest),
            }),
        decreases n - i,
    {
        let ghost t = s@.skip(i as int);
        let (j1, xv) = scan_number(s, i, n);
        let ghost k1 = digit_run(t) as int;
        if j1 == i {
            return Err(GameError::Invalid("malformed ship coordinates"));
        }
        if j1 >= n {
            proof {
                assert(t.skip(k1).len() == 0);
            }
            return Err(GameError::Invalid("malformed ship coordinates"));
        }
        let c = s.get_char(j1);
        if c != ',' {
            proof {
                assert(t.skip(k1)[0] == s@[j1 as int]);
            }
            return Err(GameError::Invalid("malformed ship coordinates"));
        }
        let ghost s2 = t.skip(k1).skip(1);
        proof {
            assert(s2 =~= s@.skip(j1 + 1));
        }
        let (j2, yv) = scan_number(s, j1 + 1, n);
        let ghost k2 = digit_run(s2) as int;
        if j2 == j1 + 1 {
            return Err(GameError::Invalid("malformed ship coordinates"));
        }
        let ghost dvx = digits_val(t, k1);
        let ghost dvy = digits_val(s2, k2);
        proof {
            assert(t.skip(k1)[0] == s@[j1 as int]);
            assert(s2.skip(k2) =~= s@.skip(j2 as int));
            assert(parse_pair(t) == Some(((dvx, dvy), s@.skip(j2 as int))));
        }
        if xv >= 10 || yv >= 10 {
            proof {
                lemma_parse_pairs_head(t);
                assert(dvx >= 10 || dvy >= 10);
                if parse_pairs(s@) is Some {
                    let ps = parse_pairs(s@)->Some_0;
                    let restp = parse_pairs(t)->Some_0;
                    assert(ps == acc + restp);
                    assert(restp[0] == (dvx, dvy));
                    assert(ps[acc.len() as int] == (dvx, dvy));
                    assert(!pairs_in_range(ps));
                }
            }
            return Err(GameError::Invalid("coordinate out of bounds"));
        }
        out.push(Coordinate { x: xv as u8, y: yv as u8 });
        proof {
            acc = acc.push((dvx, dvy));
            assert(out@ =~= coords_of_pairs(acc));
        }
        if j2 == n {
            proof {
                assert(s@.skip(j2 as int).len() == 0);
                assert(parse_pairs(t) == Some(seq![(dvx, dvy)]));
                let old_acc = acc.drop_last();
                assert(old_acc.push((dvx, dvy)) =~= acc);
                assert(old_acc + seq![(dvx, dvy)] =~= acc);
                assert(parse_pairs(s@) == Some(acc));
            }
            return Ok(out);
        }
        let d = s.get_char(j2);
        if d != ';' {
            proof {
                assert(s@.skip(j2 as int)[0] == s@[j2 as int]);
                assert(parse_pairs(t) is None);
            }
            return Err(GameError::Invalid("malformed ship coordinates"));
        }
        proof {
            assert(s@.skip(j2 as int)[0] == s@[j2 as int]);
            assert(s@.skip(j2 as int).skip(1) =~= s@.skip(j2 + 1));
            let old_acc = acc.drop_last();
            assert(old_acc + seq![(dvx, dvy)] =~= acc);
            assert(parse_pairs(t) == (match parse_pairs(s@.skip(j2 + 1)) {
                None => None::<Seq<(nat, nat)>>,
                Some(rest) => Some(seq![(dvx, dvy)] + rest),
            }));
            if parse_pairs(s@.skip(j2 + 1)) is Some {
                let rest = parse_pairs(s@.skip(j2 + 1))->Some_0;
                assert(old_acc + (seq![(dvx, dvy)] + rest) =~= acc + rest);
            }
        }
        i = j2 + 1;
    }
}

/// The digit character of a value below ten.
pub open spec fn digit_char(v: u8) -> char {
    if v == 0 {
        '0'
    } else if v == 1 {
        '1'
    } else if v == 2 {
        '2'
    } else if v == 3 {
        '3'
    } else if v == 4 {
        '4'
    } else if v == 5 {
        '5'
    } else if v == 6 {
        '6'
    } else if v == 7 {
        '7'
    } else if v == 8 {
        '8'
    } else {
        '9'
    }
}

/// One encoded `"x,y"` pair.
pub open spec fn encode_pair(c: Coordinate) -> Seq<char> {
    seq![digit_char(c.x), ',', digit_char(c.y)]
}

/// The encoded submission string of a coordinate list: the pairs in order,
/// separated by single semicolons.
pub open spec fn encode_coords_spec(cs: Seq<Coordinate>) -> Seq<char>
    decreases cs.len(),
{
    if cs.len() == 0 {
        Seq::empty()
    } else if cs.len() == 1 {
        encode_pair(cs[0])
    } else {
        encode_pair(cs[0]) + seq![';'] + encode_coords_spec(cs.skip(1))
    }
}

/// Appending one coordinate to a list appends its pair (and a separator if
/// the list was non-empty) to the encoding.
proof fn lemma_encode_snoc(cs: Seq<Coordinate>, c: Coordinate)
    ensures
        encode_coords_spec(cs.push(c)) == if cs.len() == 0 {
            encode_pair(c)
        } else {
            encode_coords_spec(cs) + seq![';'] + encode_pair(c)
        },
    decreases cs.len(),
{
    let p = cs.push(c);
    if cs.len() == 0 {
        assert(p.len() == 1);
        assert(p[0] == c);
    } else if cs.len() == 1 {
        assert(p[0] == cs[0]);
        assert(p.skip(1) =~= seq![c]);
        assert(encode_coords_spec(p.skip(1)) == encode_pair(c));
        assert(encode_coords_spec(cs) == encode_pair(cs[0]));
    } else {
        assert(p.skip(1) =~= cs.skip(1).push(c));
        lemma_encode_snoc(cs.skip(1), c);
        assert(p[0] == cs[0]);
        assert(encode_pair(cs[0]) + seq![';'] + (encode_coords_spec(cs.skip(1)) + seq![';']
            + encode_pair(c)) =~= (encode_pair(cs[0]) + seq![';'] + encode_coords_spec(cs.skip(1)))
            + seq![';'] + encode_pair(c));
    }
}

/// Appends the digit character of a value below ten.
fn append_digit(out: &mut String, v: u8)
    requires
        v < 10,
    ensures
        final(out)@ == old(out)@ + seq![digit_char(v)],
{
    proof {
        reveal_strlit("0");
        reveal_strlit("1");
        reveal_strlit("2");
        reveal_strlit("3");
        reveal_strlit("4");
        reveal_strlit("5");
        reveal_strlit("6");
        reveal_strlit("7");
        reveal_strlit("8");
        reveal_strlit("9");
    }
    if v == 0 {
        out.append("0");
        proof {
            assert(out@ =~= old(out)@ + seq![digit_char(v)]);
        }
    } else if v == 1 {
        out.append("1");
        proof {
            assert(out@ =~= old(out)@ + seq![digit_char(v)]);
        }
    } else if v == 2 {
        out.append("2");
        proof {
            assert(out@ =~= old(out)@ + seq![digit_char(v)]);
        }
    } else if v == 3 {
        out.append("3");
        proof {
            assert(out@ =~= old(out)@ + seq![digit_char(v)]);
        }
    } else if v == 4 {
        out.append("4");
        proof {
            assert(out@ =~= old(out)@ + seq![digit_char(v)]);
        }
    } else if v == 5 {
        out.append("5");
        proof {
            assert(out@ =~= old(out)@ + seq![digit_char(v)]);
        }
    } else if v == 6 {
        out.append("6");
        proof {
            assert(out@ =~= old(out)@ + seq![digit_char(v)]);
        }
    } else if v == 7 {
        out.append("7");
        proof {
            assert(out@ =~= old(out)@ + seq![digit_char(v)]);
        }
    } else if v == 8 {
        out.append("8");
        proof {
            assert(out@ =~= old(out)@ + seq![digit_char(v)]);
        }
    } else {
        out.append("9");
        proof {
            assert(out@ =~= old(out)@ + seq![digit_char(v)]);
        }
    }
}

/// Encodes a coordinate list in the ship submission format.
pub fn encode_ship_coords(coords: &[Coordinate]) -> (r: String)
    requires
        forall|k: int|
            0 <= k < coords@.len() ==> (#[trigger] coords@[k]).x < BOARD_SIZE && coords@[k].y
                < BOARD_SIZE,
    ensures
        r@ == encode_coords_spec(coords@),
{
    let n = coords.len();
    let mut out = String::new();
    let mut i: usize = 0;
    while i < n
        invariant
            0 <= i <= n,
            n == coords@.len(),
            forall|k: int|
                0 <= k < coords@.len() ==> (#[trigger] coords@[k]).x < BOARD_SIZE
                    && coords@[k].y < BOARD_SIZE,
            out@ == encode_coords_spec(coords@.take(i as int)),
        decreases n - i,
    {
        if i > 0 {
            proof {
                reveal_strlit(";");
            }
            out.append(";");
            proof {
                assert(out@ =~= encode_coords_spec(coords@.take(i as int)) + seq![';']);
            }
        }
        let c = coords[i];
        append_digit(&mut out, c.x);
        proof {
            reveal_strlit(",");
        }
        out.append(",");
        append_digit(&mut out, c.y);
        proof {
            lemma_encode_snoc(coords@.take(i as int), coords@[i as int]);
            assert(coords@.take(i as int).push(coords@[i as int]) =~= coords@.take(i + 1));
            assert(out@ =~= encode_coords_spec(coords@.take(i + 1)));
        }
        i = i + 1;
    }
    proof {
        assert(coords@.take(n as int) =~= coords@);
    }
    out
}

/// The parsed pairs a coordinate list denotes.
pub open spec fn pairs_of_coords(cs: Seq<Coordinate>) -> Seq<(nat, nat)> {
    Seq::new(cs.len(), |i: int| (cs[i].x as nat, cs[i].y as nat))
}

/// A non-empty list encodes to at least one pair's worth of characters.
proof fn lemma_encode_len(cs: Seq<Coordinate>)
    requires
        cs.len() > 0,
    ensures
        encode_coords_spec(cs).len() >= 3,
    decreases cs.len(),
{
    if cs.len() > 1 {
        lemma_encode_len(cs.skip(1));
    }
}

/// Round trip: parsing the encoding of a non-empty list of on-board
/// coordinates yields exactly that list back, pair for pair.
pub proof fn lemma_encode_parse_round_trip(cs: Seq<Coordinate>)
    requires
        cs.len() > 0,
        forall|k: int|
            0 <= k < cs.len() ==> (#[trigger] cs[k]).x < BOARD_SIZE && cs[k].y < BOARD_SIZE,
    ensures
        parse_pairs(encode_coords_spec(cs)) == Some(pairs_of_coords(cs)),
        pairs_in_range(pairs_of_coords(cs)),
        coords_of_pairs(pairs_of_coords(cs)) == cs,
    decreases cs.len(),
{
    let t = encode_coords_spec(cs);
    let c0 = cs[0];
    let dx = digit_char(c0.x);
    let dy = digit_char(c0.y);
    assert(is_digit(dx) && digit_val(dx) == c0.x as nat);
    assert(is_digit(dy) && digit_val(dy) == c0.y as nat);
    assert(!is_digit(',') && !is_digit(';'));
    if cs.len() == 1 {
        assert(t == encode_pair(c0));
        assert(t =~= seq![dx, ',', dy]);
        lemma_digit_run_exact(t, 1);
        assert(digits_val(t, 0) == 0);
        assert(digits_val(t, 1) == c0.x as nat);
        let rest1 = t.skip(1);
        assert(rest1 =~= seq![',', dy]);
        let s2 = rest1.skip(1);
        assert(s2 =~= seq![dy]);
        lemma_digit_run_exact(s2, 1);
        assert(digits_val(s2, 0) == 0);
        assert(digits_val(s2, 1) == c0.y as nat);
        assert(s2.skip(1) =~= Seq::<char>::empty());
        assert(parse_pair(t) == Some(
            (((c0.x as nat), (c0.y as nat)), Seq::<char>::empty()),
        ));
        assert(parse_pairs(t) == Some(seq![((c0.x as nat), (c0.y as nat))]));
        assert(seq![((c0.x as nat), (c0.y as nat))] =~= pairs_of_coords(cs));
    } else {
        let tail = cs.skip(1);
        assert(forall|k: int|
            0 <= k < tail.len() ==> (#[trigger] tail[k]).x < BOARD_SIZE && tail[k].y
                < BOARD_SIZE);
        lemma_encode_parse_round_trip(tail);
        lemma_encode_len(tail);
        let u = encode_coords_spec(tail);
        assert(t == encode_pair(c0) + seq![';'] + u);
        assert(t =~= seq![dx, ',', dy, ';'] + u);
        assert(t[0] == dx && t[1] == ',');
        lemma_digit_run_exact(t, 1);
        assert(digits_val(t, 0) == 0);
        assert(digits_val(t, 1) == c0.x as nat);
        let rest1 = t.skip(1);
        let s2 = rest1.skip(1);
        assert(s2 =~= seq![dy, ';'] + u);
        assert(s2[0] == dy && s2[1] == ';');
        lemma_digit_run_exact(s2, 1);
        assert(digits_val(s2, 0) == 0);
        assert(digits_val(s2, 1) == c0.y as nat);
        let rest = s2.skip(1);
        assert(rest =~= seq![';'] + u);
        assert(parse_pair(t) == Some((((c0.x as nat), (c0.y as nat)), rest)));
        assert(rest.len() > 0 && rest[0] == ';');
        assert(rest.skip(1) =~= u);
        assert(parse_pairs(u) == Some(pairs_of_coords(tail)));
        assert(parse_pairs(t) == Some(seq![((c0.x as nat), (c0.y as nat))] + pairs_of_coords(
            tail,
        )));
        assert(seq![((c0.x as nat), (c0.y as nat))] + pairs_of_coords(tail) =~= pairs_of_coords(
            cs,
        ));
    }
    assert(coords_of_pairs(pairs_of_coords(cs)) =~= cs);
}

/// The decimal digit string of a number, most significant digit first.
pub open spec fn dec_digits(n: nat) -> Seq<char>
    decreases n,
{
    if n < 10 {
        seq![digit_char(n as u8)]
    } else {
        dec_digits(n / 10) + seq![digit_char((n % 10) as u8)]
    }
}

/// The digit characters of a digit list, in reverse order.
pub open spec fn chars_rev(ds: Seq<u8>) -> Seq<char> {
    Seq::new(ds.len(), |i: int| digit_char(ds[ds.len() - 1 - i]))
}

/// Renders a number in decimal.
pub fn u64_to_dec(n: u64) -> (r: String)
    ensures
        r@ == dec_digits(n as nat),
{
    let mut digits: Vec<u8> = Vec::new();
    if n == 0 {
        digits.push(0);
        proof {
            assert(chars_rev(digits@) =~= dec_digits(n as nat));
        }
    } else {
        let mut m = n;
        while m > 0
            invariant
                forall|k: int| 0 <= k < digits@.len() ==> digits@[k] < 10,
                m > 0 ==> dec_digits(n as nat) == dec_digits(m as nat) + chars_rev(digits@),
                m == 0 ==> dec_digits(n as nat) == chars_rev(digits@),
            decreases m,
        {
            let d = (m % 10) as u8;
            let ghost pre = digits@;
            digits.push(d);
            proof {
                assert(chars_rev(digits@) =~= seq![digit_char(d)] + chars_rev(pre));
                if m >= 10 {
                    assert(dec_digits(m as nat) == dec_digits((m as nat) / 10) + seq![
                        digit_char(((m as nat) % 10) as u8),
                    ]);
                    assert(dec_digits(m as nat) + chars_rev(pre) =~= dec_digits((m as nat) / 10)
                        + chars_rev(digits@));
                } else {
                    assert(dec_digits(m as nat) == seq![digit_char(d)]);
                    assert(dec_digits(m as nat) + chars_rev(pre) =~= chars_rev(digits@));
                }
            }
            m = m / 10;
        }
    }
    let n2 = digits.len();
    let mut out = String::new();
    let mut k: usize = 0;
    while k < n2
        invariant
            0 <= k <= n2,
            n2 == digits@.len(),
            forall|j: int| 0 <= j < digits@.len() ==> digits@[j] < 10,
            dec_digits(n as nat) == chars_rev(digits@),
            out@ == chars_rev(digits@).take(k as int),
        decreases n2 - k,
    {
        append_digit(&mut out, digits[n2 - 1 - k]);
        proof {
            assert(out@ =~= chars_rev(digits@).take(k + 1));
        }
        k = k + 1;
    }
    proof {
        assert(chars_rev(digits@).take(n2 as int) =~= chars_rev(digits@));
    }
    out
}

/// Compares two strings character by character.
pub fn str_eq(a: &str, b: &str) -> (r: bool)
    ensures
        r == (a@ == b@),
{
    let la = a.unicode_len();
    let lb = b.unicode_len();
    if la != lb {
        return false;
    }
    let mut i: usize = 0;
    while i < la
        invariant
            0 <= i <= la,
            la == a@.len(),
            la == b@.len(),
            forall|k: int| 0 <= k < i ==> a@[k] == b@[k],
        decreases la - i,
    {
        if a.get_char(i) != b.get_char(i) {
            return false;
        }
        i = i + 1;
    }
    proof {
        assert(a@ =~= b@);
    }
    true
}

/// The views of a list of group strings.
pub open spec fn strings_views(gs: Seq<String>) -> Seq<Seq<char>> {
    Seq::new(gs.len(), |i: int| gs[i]@)
}

/// Parses every group of a fleet submission: `None` as soon as any group is
/// malformed or holds an off-board value.
pub open spec fn parse_groups(groups: Seq<Seq<char>>) -> Option<Seq<Seq<Coordinate>>>
    decreases groups.len(),
{
    if groups.len() == 0 {
        Some(Seq::empty())
    } else {
        match parse_groups(groups.drop_last()) {
            None => None,
            Some(css) => match parse_pairs(groups.last()) {
                None => None,
                Some(ps) => if pairs_in_range(ps) {
                    Some(css.push(coords_of_pairs(ps)))
                } else {
                    None
                },
            },
        }
    }
}

/// Once a prefix of the submission fails to parse, the whole submission
/// fails to parse.
pub proof fn lemma_parse_groups_extend_none(gs: Seq<Seq<char>>, i: int)
    requires
        0 <= i <= gs.len(),
        parse_groups(gs.take(i)) is None,
    ensures
        parse_groups(gs) is None,
    decreases gs.len() - i,
{
    if i < gs.len() {
        assert(gs.take(i + 1).drop_last() =~= gs.take(i));
        assert(parse_groups(gs.take(i + 1)) is None);
        lemma_parse_groups_extend_none(gs, i + 1);
    } else {
        assert(gs.take(i) =~= gs);
    }
}

} // verus!

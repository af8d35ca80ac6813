//! Verified string helpers shared by the rest of the library.
use vstd::prelude::*;

verus! {

broadcast use vstd::string::group_string_axioms;

/// The characters of `s`, in order.
pub fn chars_of(s: &str) -> (v: Vec<char>)
    ensures
        v@ == s@,
{
    let mut v: Vec<char> = Vec::new();
    for c in it: s.chars()
        invariant
            it.seq() == s@,
            v@ == it.seq().take(it.index() as int),
    {
        v.push(c);
    }
    v
}


/// The decimal digit character for `d`, which is below ten.
pub open spec fn digit_char(d: nat) -> char {
    seq!['0', '1', '2', '3', '4', '5', '6', '7', '8', '9'][d as int]
}

/// Decimal notation of `n`, most significant digit first, without leading zeros.
pub open spec fn decimal(n: nat) -> Seq<char>
    decreases n,
{
    if n < 10 {
        seq![digit_char(n)]
    } else {
        decimal(n / 10).push(digit_char(n % 10))
    }
}

fn digit_str(d: u32) -> (r: &'static str)
    requires
        d < 10,
    ensures
        r@ == seq![digit_char(d as nat)],
{
    proof {
        reveal_strlit("0");
        reveal_strlit("1");
        reveal_strlit("2");
        reveal_strlit("3");
        reveal_strlit("4");
        reveal_strlit("5");
        reveal_strlit("6");
        reveal_strlit("7");
        reveal_strlit("8");
        reveal_strlit("9");
    }
    match d {
        0 => "0",
        1 => "1",
        2 => "2",
        3 => "3",
        4 => "4",
        5 => "5",
        6 => "6",
        7 => "7",
        8 => "8",
        _ => "9",
    }
}

/// Writes `n` in decimal notation.
pub fn decimal_string(n: u32) -> (r: String)
    ensures
        r@ == decimal(n as nat),
    decreases n,
{
    if n < 10 {
        String::from_str(digit_str(n))
    } else {
        let mut s = decimal_string(n / 10);
        s.append(digit_str(n % 10));
        s
    }
}

/// The number that a sequence of decimal digits denotes.
pub open spec fn digits_value(s: Seq<char>) -> int
    decreases s.len(),
{
    if s.len() == 0 {
        0
    } else {
        10 * digits_value(s.drop_last()) + (s.last() as int - '0' as int)
    }
}

proof fn lemma_digit_char(d: nat)
    requires
        d < 10,
    ensures
        digit_char(d) as int - '0' as int == d,
        '0' <= digit_char(d) <= '9',
{
    let digits = seq!['0', '1', '2', '3', '4', '5', '6', '7', '8', '9'];
    assert(digits[0] == '0' && digits[1] == '1' && digits[2] == '2' && digits[3] == '3');
    assert(digits[4] == '4' && digits[5] == '5' && digits[6] == '6' && digits[7] == '7');
    assert(digits[8] == '8' && digits[9] == '9');
}

/// Decimal notation is made of the digits `0` to `9`, starts with a digit
/// other than `0` unless the number is zero, and denotes the number it
/// was made from.
pub proof fn lemma_decimal_denotes(n: nat)
    ensures
        digits_value(decimal(n)) == n,
        forall|i: int| 0 <= i < decimal(n).len() ==> '0' <= #[trigger] decimal(n)[i] <= '9',
        decimal(n).len() >= 1,
        n != 0 ==> decimal(n)[0] != '0',
    decreases n,
{
    lemma_digit_char(n % 10);
    if n < 10 {
        lemma_digit_char(n);
        assert(decimal(n).drop_last() =~= Seq::<char>::empty());
        assert(digits_value(decimal(n).drop_last()) == 0);
        assert(decimal(n).last() == digit_char(n));
        assert(digits_value(decimal(n)) == 10 * 0 + (digit_char(n) as int - '0' as int));
    }
    if n >= 10 {
        lemma_decimal_denotes(n / 10);
        let d = decimal(n);
        assert(d.drop_last() =~= decimal(n / 10));
        assert(d.last() == digit_char(n % 10));
        assert(digits_value(d) == 10 * digits_value(decimal(n / 10)) + (digit_char(n % 10) as int
            - '0' as int));
        assert(n == 10 * (n / 10) + n % 10);
        assert forall|i: int| 0 <= i < d.len() implies '0' <= #[trigger] d[i] <= '9' by {
            if i < d.len() - 1 {
                assert(d[i] == decimal(n / 10)[i]);
            }
        }
        assert(d[0] == decimal(n / 10)[0]);
    }
}

/// `pat` occurs in `s` starting at position `i`.
pub open spec fn occurs_at(s: Seq<char>, pat: Seq<char>, i: int) -> bool {
    0 <= i && i + pat.len() <= s.len() && s.subrange(i, i + pat.len()) == pat
}

/// No occurrence of `pat` in `s` starts before position `k`.
pub open spec fn absent_before(s: Seq<char>, pat: Seq<char>, k: int) -> bool {
    forall|i: int| 0 <= i < k ==> !#[trigger] occurs_at(s, pat, i)
}

/// Position of the leftmost occurrence of `pat` in `s`.
pub fn find_first(s: &Vec<char>, pat: &Vec<char>) -> (r: Option<usize>)
    requires
        pat@.len() > 0,
    ensures
        match r {
            Some(k) => occurs_at(s@, pat@, k as int) && absent_before(s@, pat@, k as int),
            None => absent_before(s@, pat@, s@.len() as int),
        },
{
    if pat.len() > s.len() {
        assert(absent_before(s@, pat@, s@.len() as int));
        return None;
    }
    let last = s.len() - pat.len();
    let mut i: usize = 0;
    while i <= last
        invariant
            last + pat@.len() == s@.len(),
            s@.len() <= usize::MAX,
            pat@.len() > 0,
            i <= last + 1,
            absent_before(s@, pat@, i as int),
        decreases last + 1 - i,
    {
        let mut j: usize = 0;
        let mut matched = true;
        while j < pat.len()
            invariant
                i <= last,
                last + pat@.len() == s@.len(),
                s@.len() <= usize::MAX,
                j <= pat@.len(),
                matched <==> (forall|m: int| 0 <= m < j ==> s@[i + m] == pat@[m]),
            decreases pat@.len() - j,
        {
            if s[i + j] != pat[j] {
                matched = false;
            }
            j = j + 1;
        }
        if matched {
            assert(s@.subrange(i as int, i + pat@.len()) =~= pat@);
            return Some(i);
        }
        assert(!occurs_at(s@, pat@, i as int)) by {
            let m = choose|m: int| 0 <= m < pat@.len() && s@[i + m] != pat@[m];
            if occurs_at(s@, pat@, i as int) {
                assert(s@.subrange(i as int, i + pat@.len())[m] == s@[i + m]);
            }
        }
        i = i + 1;
    }
    assert forall|k: int| 0 <= k < s@.len() implies !#[trigger] occurs_at(s@, pat@, k) by {
        if k > last {
        }
    }
    None
}

/// Splits `s` at the leftmost occurrence of `pat`: the text before it and
/// the text after it, or `None` where `pat` does not occur.
pub fn split_once(s: &str, pat: &str) -> (r: Option<(String, String)>)
    requires
        pat@.len() > 0,
    ensures
        match r {
            Some((before, after)) => {
                &&& occurs_at(s@, pat@, before@.len() as int)
                &&& absent_before(s@, pat@, before@.len() as int)
                &&& before@ == s@.subrange(0, before@.len() as int)
                &&& after@ == s@.subrange((before@.len() + pat@.len()) as int, s@.len() as int)
            },
            None => absent_before(s@, pat@, s@.len() as int),
        },
{
    let sv = chars_of(s);
    let pv = chars_of(pat);
    match find_first(&sv, &pv) {
        Some(k) => {
            let end = sv.len();
            let plen = pv.len();
            assert(k + plen <= end);
            let before = s.substring_char(0, k);
            let after = s.substring_char(k + plen, end);
            Some((before.to_owned(), after.to_owned()))
        },
        None => None,
    }
}

/// Pieces of `s` between the occurrences of `sep`, as `str::split` yields
/// them for a one-character separator: empty pieces included, at least one.
pub open spec fn split_char(s: Seq<char>, sep: char) -> Seq<Seq<char>>
    decreases s.len(),
{
    if s.len() == 0 {
        seq![Seq::<char>::empty()]
    } else {
        let pieces = split_char(s.drop_last(), sep);
        if s.last() == sep {
            pieces.push(Seq::<char>::empty())
        } else {
            pieces.update(pieces.len() - 1, pieces.last().push(s.last()))
        }
    }
}

/// The pieces joined, with `sep` between each two of them.
pub open spec fn join(pieces: Seq<Seq<char>>, sep: Seq<char>) -> Seq<char>
    decreases pieces.len(),
{
    if pieces.len() == 0 {
        Seq::<char>::empty()
    } else if pieces.len() == 1 {
        pieces[0]
    } else {
        join(pieces.drop_last(), sep) + sep + pieces.last()
    }
}


/// Splitting yields at least one piece.
pub proof fn lemma_split_char_nonempty(s: Seq<char>, sep: char)
    ensures
        split_char(s, sep).len() >= 1,
    decreases s.len(),
{
    if s.len() > 0 {
        lemma_split_char_nonempty(s.drop_last(), sep);
    }
}

/// Splits `s` at every occurrence of `sep`.
pub fn split_on_char(s: &str, sep: char) -> (r: Vec<String>)
    ensures
        r@.map_values(|p: String| p@) == split_char(s@, sep),
{
    let v = chars_of(s);
    let n = v.len();
    let mut pieces: Vec<String> = Vec::new();
    let mut start: usize = 0;
    let mut i: usize = 0;
    assert(s@.take(0) =~= Seq::<char>::empty());
    assert(pieces@.map_values(|p: String| p@).push(s@.subrange(0, 0)) =~= seq![Seq::<char>::empty()]);
    while i < n
        invariant
            v@ == s@,
            n == s@.len(),
            start <= i <= n,
            split_char(s@.take(i as int), sep) == pieces@.map_values(|p: String| p@).push(
                s@.subrange(start as int, i as int),
            ),
        decreases n - i,
    {
        let ghost old_pieces = pieces@.map_values(|p: String| p@);
        let ghost old_start = start;
        assert(s@.take(i + 1).drop_last() =~= s@.take(i as int));
        assert(s@.take(i + 1).last() == s@[i as int]);
        if v[i] == sep {
            let piece = s.substring_char(start, i).to_owned();
            pieces.push(piece);
            start = i + 1;
            assert(pieces@.map_values(|p: String| p@) =~= old_pieces.push(
                s@.subrange(old_start as int, i as int),
            ));
            assert(s@.subrange(start as int, i + 1) =~= Seq::<char>::empty());
        } else {
            assert(s@.subrange(start as int, i + 1) =~= s@.subrange(start as int, i as int).push(
                s@[i as int],
            ));
        }
        i = i + 1;
    }
    let ghost done = pieces@.map_values(|p: String| p@);
    let last = s.substring_char(start, n).to_owned();
    pieces.push(last);
    assert(s@.take(n as int) =~= s@);
    assert(pieces@.map_values(|p: String| p@) =~= done.push(s@.subrange(start as int, n as int)));
    pieces
}

proof fn lemma_join_extend_last(pieces: Seq<Seq<char>>, sep: Seq<char>, c: char)
    requires
        pieces.len() >= 1,
    ensures
        join(pieces.update(pieces.len() - 1, pieces.last().push(c)), sep) == join(pieces, sep).push(
            c,
        ),
{
    let updated = pieces.update(pieces.len() - 1, pieces.last().push(c));
    if pieces.len() > 1 {
        assert(updated.drop_last() =~= pieces.drop_last());
        assert(join(updated, sep) =~= join(pieces, sep).push(c));
    }
}

/// Joining the pieces of `s` split at `sep` with `sep` gives `s` back, and
/// no piece holds `sep`.
pub proof fn lemma_split_char_join(s: Seq<char>, sep: char)
    ensures
        join(split_char(s, sep), seq![sep]) == s,
        forall|i: int|
            0 <= i < split_char(s, sep).len() ==> !(#[trigger] split_char(s, sep)[i]).contains(sep),
    decreases s.len(),
{
    if s.len() > 0 {
        let rest = s.drop_last();
        lemma_split_char_join(rest, sep);
        lemma_split_char_nonempty(rest, sep);
        let pieces = split_char(rest, sep);
        if s.last() == sep {
            let pushed = pieces.push(Seq::<char>::empty());
            assert(pushed.drop_last() =~= pieces);
            assert(join(pushed, seq![sep]) =~= s);
            assert forall|i: int| 0 <= i < pushed.len() implies !(#[trigger] pushed[i]).contains(sep) by {
                if i < pieces.len() {
                    assert(pushed[i] == pieces[i]);
                }
            }
        } else {
            lemma_join_extend_last(pieces, seq![sep], s.last());
            assert(join(pieces, seq![sep]).push(s.last()) =~= s);
            let updated = pieces.update(pieces.len() - 1, pieces.last().push(s.last()));
            assert forall|i: int| 0 <= i < updated.len() implies !(#[trigger] updated[i]).contains(sep) by {
                if i == pieces.len() - 1 {
                    let p = pieces.last();
                    assert(!p.contains(sep));
                    if updated[i].contains(sep) {
                        let j = choose|j: int| 0 <= j < updated[i].len() && updated[i][j] == sep;
                        if j < p.len() {
                            assert(p[j] == sep);
                        }
                    }
                } else {
                    assert(updated[i] == pieces[i]);
                }
            }
        }
    }
}

} // verus!

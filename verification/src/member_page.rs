use vstd::prelude::*;

use crate::state_row::Membership;

verus! {

/// The height of a members list that shows more than five members.
pub const MAX_LIST_HEIGHT: i32 = 300;

/// The least height of a list of `n` members: fixed above five members, and
/// natural otherwise.
pub fn list_height(n: u32) -> (h: i32)
    ensures
        h == if n > 5 { MAX_LIST_HEIGHT } else { -1i32 },
{
    if n > 5 {
        MAX_LIST_HEIGHT
    } else {
        -1
    }
}

/// Whether the section of invited members shows: when someone is invited.
pub fn invited_section_visible(n: u32) -> (b: bool)
    ensures
        b == (n > 0),
{
    n > 0
}

/// The places of the members whose membership is `m`, in order.
pub open spec fn places_with(memberships: Seq<Membership>, m: Membership) -> Seq<usize>
    decreases memberships.len(),
{
    if memberships.len() == 0 {
        seq![]
    } else {
        let before = places_with(memberships.drop_last(), m);
        if memberships.last() == m {
            before.push((memberships.len() - 1) as usize)
        } else {
            before
        }
    }
}

/// The places of the members whose membership is `m`, in order: the joined
/// members make the members list, the invited ones the invited list.
pub fn members_with(memberships: &Vec<Membership>, m: Membership) -> (r: Vec<usize>)
    ensures
        r@ == places_with(memberships@, m),
{
    let mut r: Vec<usize> = Vec::new();
    let mut i: usize = 0;
    while i < memberships.len()
        invariant
            i <= memberships@.len(),
            r@ == places_with(memberships@.take(i as int), m),
        decreases memberships@.len() - i,
    {
        assert(memberships@.take(i + 1).drop_last() =~= memberships@.take(i as int));
        if memberships[i] == m {
            r.push(i);
        }
        i = i + 1;
    }
    assert(memberships@.take(memberships@.len() as int) =~= memberships@);
    r
}

/// Whether the member at `a` comes before the one at `b`: a higher power
/// level first, and for the same level, the name that collates first.
pub open spec fn before(power: Seq<i64>, name_rank: Seq<u64>, a: usize, b: usize) -> bool {
    power[a as int] > power[b as int] || (power[a as int] == power[b as int] && name_rank[a as int] <= name_rank[b as int])
}

/// Whether `s` is in the order of `before`.
pub open spec fn sorted_by(power: Seq<i64>, name_rank: Seq<u64>, s: Seq<usize>) -> bool {
    forall|i: int, j: int| 0 <= i < j < s.len() ==> before(power, name_rank, s[i], s[j])
}

/// Whether no element comes twice.
pub open spec fn distinct(s: Seq<usize>) -> bool {
    forall|i: int, j: int| 0 <= i < j < s.len() ==> s[i] != s[j]
}

/// Sorts the members at the places `places` by power level, highest first,
/// and then by name; `name_rank` gives the order of the names, as the
/// locale collates them.
pub fn sort_members(places: &Vec<usize>, power: &Vec<i64>, name_rank: &Vec<u64>) -> (r: Vec<usize>)
    requires
        distinct(places@),
        forall|i: int| 0 <= i < places@.len() ==> places@[i] < power@.len() && places@[i] < name_rank@.len(),
    ensures
        r@.len() == places@.len(),
        distinct(r@),
        forall|x: usize| r@.contains(x) <==> places@.contains(x),
        sorted_by(power@, name_rank@, r@),
{
    let mut out: Vec<usize> = Vec::new();
    let mut i: usize = 0;
    while i < places.len()
        invariant
            i <= places@.len(),
            distinct(places@),
            forall|k: int| 0 <= k < places@.len() ==> places@[k] < power@.len() && places@[k] < name_rank@.len(),
            out@.len() == i,
            forall|k: int| 0 <= k < out@.len() ==> out@[k] < power@.len() && out@[k] < name_rank@.len(),
            distinct(out@),
            forall|x: usize| out@.contains(x) <==> places@.take(i as int).contains(x),
            sorted_by(power@, name_rank@, out@),
        decreases places@.len() - i,
    {
        let x = places[i];
        let mut pos: usize = 0;
        while pos < out.len() && is_before(power, name_rank, out[pos], x)
            invariant
                pos <= out@.len(),
                x < power@.len() && x < name_rank@.len(),
                forall|k: int| 0 <= k < out@.len() ==> out@[k] < power@.len() && out@[k] < name_rank@.len(),
                forall|k: int| 0 <= k < pos ==> before(power@, name_rank@, #[trigger] out@[k], x),
            ensures
                pos <= out@.len(),
                forall|k: int| 0 <= k < pos ==> before(power@, name_rank@, #[trigger] out@[k], x),
                pos < out@.len() ==> !before(power@, name_rank@, out@[pos as int], x),
            decreases out@.len() - pos,
        {
            pos = pos + 1;
        }
        let ghost old_out = out@;
        proof {
            assert(!places@.take(i as int).contains(x)) by {
                if places@.take(i as int).contains(x) {
                    let k = choose|k: int| 0 <= k < i && places@.take(i as int)[k] == x;
                    assert(places@[k] == places@[i as int]);
                }
            }
        }
        out.insert(pos, x);
        proof {
            let t0 = places@.take(i as int);
            let t1 = places@.take(i + 1);
            assert(out@ =~= old_out.insert(pos as int, x));
            assert(t1 =~= t0.push(x));
            assert forall|y: usize| out@.contains(y) <==> t1.contains(y) by {
                if out@.contains(y) {
                    let k = choose|k: int| 0 <= k < out@.len() && out@[k] == y;
                    if k < pos {
                        assert(old_out[k] == y);
                        assert(old_out.contains(y));
                    } else if k > pos {
                        assert(old_out[k - 1] == y);
                        assert(old_out.contains(y));
                    }
                    assert(t1.contains(y)) by {
                        if y == x {
                            assert(t1[i as int] == x);
                        } else {
                            let m = choose|m: int| 0 <= m < t0.len() && t0[m] == y;
                            assert(t1[m] == y);
                        }
                    }
                }
                if t1.contains(y) {
                    let m = choose|m: int| 0 <= m < t1.len() && t1[m] == y;
                    if m < i {
                        assert(t0[m] == y);
                        assert(old_out.contains(y));
                        let k = choose|k: int| 0 <= k < old_out.len() && old_out[k] == y;
                        if k < pos {
                            assert(out@[k] == y);
                        } else {
                            assert(out@[k + 1] == y);
                        }
                    } else {
                        assert(out@[pos as int] == x);
                    }
                }
            }
            assert forall|a: int, b: int| 0 <= a < b < out@.len() implies out@[a] != out@[b] by {
                if a == pos {
                    assert(old_out[b - 1] != x) by {
                        assert(old_out.contains(old_out[b - 1]));
                    }
                } else if b == pos {
                    assert(old_out.contains(old_out[a]));
                } else {
                    let a0 = if a < pos { a } else { a - 1 };
                    let b0 = if b < pos { b } else { b - 1 };
                    assert(out@[a] == old_out[a0]);
                    assert(out@[b] == old_out[b0]);
                }
            }
            assert forall|a: int, b: int| 0 <= a < b < out@.len() implies before(power@, name_rank@, out@[a], out@[b]) by {
                if a == pos {
                    // x goes before every later element
                    if pos < old_out.len() {
                        assert(!before(power@, name_rank@, old_out[pos as int], x));
                        assert(before(power@, name_rank@, old_out[pos as int], old_out[b - 1]) || b - 1 == pos);
                    }
                } else if b == pos {
                    assert(before(power@, name_rank@, old_out[a], x));
                } else {
                    let a0 = if a < pos { a } else { a - 1 };
                    let b0 = if b < pos { b } else { b - 1 };
                    assert(out@[a] == old_out[a0]);
                    assert(out@[b] == old_out[b0]);
                }
            }
        }
        i = i + 1;
    }
    assert(places@.take(places@.len() as int) =~= places@);
    out
}

/// Whether the member at `a` comes before the one at `b`.
fn is_before(power: &Vec<i64>, name_rank: &Vec<u64>, a: usize, b: usize) -> (r: bool)
    requires
        a < power@.len() && a < name_rank@.len(),
        b < power@.len() && b < name_rank@.len(),
    ensures
        r == before(power@, name_rank@, a, b),
{
    power[a] > power[b] || (power[a] == power[b] && name_rank[a] <= name_rank[b])
}

/// The digit for `d`, below ten.
pub open spec fn digit(d: nat) -> char {
    if d == 0 {
        '0'
    } else if d == 1 {
        '1'
    } else if d == 2 {
        '2'
    } else if d == 3 {
        '3'
    } else if d == 4 {
        '4'
    } else if d == 5 {
        '5'
    } else if d == 6 {
        '6'
    } else if d == 7 {
        '7'
    } else if d == 8 {
        '8'
    } else {
        '9'
    }
}

/// The decimal digits of `n`.
pub open spec fn digits(n: nat) -> Seq<char>
    decreases n,
{
    if n < 10 {
        seq![digit(n)]
    } else {
        digits(n / 10).push(digit(n % 10))
    }
}

/// The decimal form of `n`, with a minus sign when negative.
pub open spec fn decimal_view(n: int) -> Seq<char> {
    if n < 0 {
        seq!['-'] + digits((-n) as nat)
    } else {
        digits(n as nat)
    }
}

fn digit_str(d: u64) -> (s: &'static str)
    requires
        d < 10,
    ensures
        s@ == seq![digit(d as nat)],
{
    proof {
        reveal_strlit("0");
        reveal_strlit("1");
        reveal_strlit("2");
        reveal_strlit("3");
        reveal_strlit("4");
        reveal_strlit("5");
        reveal_strlit("6");
        reveal_strlit("7");
        reveal_strlit("8");
        reveal_strlit("9");
    }
    if d == 0 {
        "0"
    } else if d == 1 {
        "1"
    } else if d == 2 {
        "2"
    } else if d == 3 {
        "3"
    } else if d == 4 {
        "4"
    } else if d == 5 {
        "5"
    } else if d == 6 {
        "6"
    } else if d == 7 {
        "7"
    } else if d == 8 {
        "8"
    } else {
        "9"
    }
}

/// Appends the decimal digits of `n` to `s`.
fn push_digits(s: &mut String, n: u64)
    ensures
        final(s)@ == old(s)@ + digits(n as nat),
    decreases n,
{
    if n >= 10 {
        push_digits(s, n / 10);
        s.append(digit_str(n % 10));
        assert(digits(n as nat) == digits((n / 10) as nat).push(digit((n % 10) as nat)));
    } else {
        s.append(digit_str(n));
    }
}

/// The decimal form of `n`.
pub fn decimal(n: i64) -> (s: String)
    ensures
        s@ == decimal_view(n as int),
{
    let mut s = String::new();
    if n < 0 {
        let minus = "-";
        proof {
            reveal_strlit("-");
        }
        s.append(minus);
        let magnitude: u64 = if n == i64::MIN {
            9223372036854775808u64
        } else {
            (-n) as u64
        };
        push_digits(&mut s, magnitude);
    } else {
        push_digits(&mut s, n as u64);
    }
    s
}

/// What the search of the members list looks in: the member's display name,
/// id, role and power level, with a space between each.
pub open spec fn search_view(display_name: Seq<char>, user_id: Seq<char>, role: Seq<char>, power_level: i64) -> Seq<char> {
    display_name + seq![' '] + user_id + seq![' '] + role + seq![' '] + decimal_view(power_level as int)
}

/// What the search of the members list looks in for a member.
pub fn search_string(display_name: &str, user_id: &str, role: &str, power_level: i64) -> (s: String)
    ensures
        s@ == search_view(display_name@, user_id@, role@, power_level),
{
    let space = " ";
    proof {
        reveal_strlit(" ");
    }
    let mut s = String::new();
    s.append(display_name);
    s.append(space);
    s.append(user_id);
    s.append(space);
    s.append(role);
    s.append(space);
    let level = decimal(power_level);
    s.append(level.as_str());
    assert(s@ =~= search_view(display_name@, user_id@, role@, power_level));
    s
}

/// `c` with an ASCII capital made small; other characters stay.
pub open spec fn fold_ascii(c: char) -> char {
    if 'A' <= c && c <= 'Z' {
        ((c as u32) + 32) as char
    } else {
        c
    }
}

/// Whether `pat` stands in `text` at `i`, letters compared without case.
pub open spec fn matches_at(text: Seq<char>, pat: Seq<char>, i: int) -> bool {
    forall|k: int| 0 <= k < pat.len() ==> fold_ascii(#[trigger] text[i + k]) == fold_ascii(pat[k])
}

/// Whether `pat` stands somewhere in `text`, letters compared without case;
/// an empty `pat` stands everywhere.
pub open spec fn contains_folded(text: Seq<char>, pat: Seq<char>) -> bool {
    exists|i: int| 0 <= i && i + pat.len() <= text.len() && #[trigger] matches_at(text, pat, i)
}

fn fold_char(c: char) -> (d: char)
    ensures
        d == fold_ascii(c),
{
    if 'A' <= c && c <= 'Z' {
        let b: u8 = c as u8;
        assert(b as u32 == c as u32);
        ((b + 32) as char)
    } else {
        c
    }
}

fn matches_here(text: &str, pat: &str, i: usize) -> (b: bool)
    requires
        i + pat@.len() <= text@.len(),
    ensures
        b == matches_at(text@, pat@, i as int),
{
    let m = pat.unicode_len();
    let n = text.unicode_len();
    let mut k: usize = 0;
    while k < m
        invariant
            m == pat@.len(),
            n == text@.len(),
            i + m <= text@.len(),
            k <= m,
            forall|j: int| 0 <= j < k ==> fold_ascii(#[trigger] text@[i + j]) == fold_ascii(pat@[j]),
        decreases m - k,
    {
        if fold_char(text.get_char(i + k)) != fold_char(pat.get_char(k)) {
            assert(!(fold_ascii(text@[i + k as int]) == fold_ascii(pat@[k as int])));
            return false;
        }
        k = k + 1;
    }
    true
}

/// Whether the search `pat` finds `text`: it stands in it, ASCII letters
/// compared without case.
pub fn contains_ignoring_case(text: &str, pat: &str) -> (b: bool)
    ensures
        b == contains_folded(text@, pat@),
{
    let n = text.unicode_len();
    let m = pat.unicode_len();
    if m > n {
        return false;
    }
    let mut i: usize = 0;
    while i <= n - m
        invariant
            n == text@.len(),
            m == pat@.len(),
            m <= n,
            i <= n - m + 1,
            forall|j: int| 0 <= j < i ==> !#[trigger] matches_at(text@, pat@, j),
        decreases n - m + 1 - i,
    {
        if matches_here(text, pat, i) {
            return true;
        }
        i = i + 1;
    }
    false
}

/// The places of `places` whose search text, in `texts`, the search `pat`
/// finds, in order.
pub open spec fn found_places(places: Seq<usize>, texts: Seq<String>, pat: Seq<char>) -> Seq<usize>
    decreases places.len(),
{
    if places.len() == 0 {
        seq![]
    } else {
        let before = found_places(places.drop_last(), texts, pat);
        if contains_folded(texts[places.last() as int]@, pat) {
            before.push(places.last())
        } else {
            before
        }
    }
}

/// Filters the members at `places` by the search entry's text `search`:
/// a member stays when its search text, in `texts`, holds `search`, ASCII
/// letters compared without case. An empty search keeps every member.
pub fn filter_members(places: &Vec<usize>, texts: &Vec<String>, search: &str) -> (r: Vec<usize>)
    requires
        forall|i: int| 0 <= i < places@.len() ==> places@[i] < texts@.len(),
    ensures
        r@ == found_places(places@, texts@, search@),
{
    let mut r: Vec<usize> = Vec::new();
    let mut i: usize = 0;
    while i < places.len()
        invariant
            i <= places@.len(),
            forall|k: int| 0 <= k < places@.len() ==> places@[k] < texts@.len(),
            r@ == found_places(places@.take(i as int), texts@, search@),
        decreases places@.len() - i,
    {
        assert(places@.take(i + 1).drop_last() =~= places@.take(i as int));
        assert(places@.take(i + 1).last() == places@[i as int]);
        let p = places[i];
        if contains_ignoring_case(texts[p].as_str(), search) {
            r.push(p);
        }
        i = i + 1;
    }
    assert(places@.take(places@.len() as int) =~= places@);
    r
}

} // verus!

//! Collision-free file names: `<stem>-<n>.<ext>` with the least free `n`.
use vstd::prelude::*;

verus! {

/// Character of a decimal digit `d < 10`.
pub open spec fn digit_char(d: nat) -> char {
    seq!['0', '1', '2', '3', '4', '5', '6', '7', '8', '9'][d as int]
}

/// Decimal notation of `n`, without leading zeros.
pub open spec fn decimal(n: nat) -> Seq<char>
    decreases n,
{
    if n < 10 {
        seq![digit_char(n)]
    } else {
        decimal(n / 10).push(digit_char(n % 10))
    }
}

/// Index of the last `.` in `s`, or -1 where there is none.
pub open spec fn last_dot(s: Seq<char>) -> int
    decreases s.len(),
{
    if s.len() == 0 {
        -1
    } else if s.last() == '.' {
        s.len() - 1
    } else {
        last_dot(s.drop_last())
    }
}

/// The stem of a file name: all before the last `.`, unless that dot leads
/// the name or there is none, in which case the whole name.
pub open spec fn stem_of(name: Seq<char>) -> Seq<char> {
    if last_dot(name) <= 0 {
        name
    } else {
        name.subrange(0, last_dot(name))
    }
}

/// The extension of a file name: all after the last `.` (empty where the
/// name has no extension).
pub open spec fn ext_of(name: Seq<char>) -> Seq<char> {
    if last_dot(name) <= 0 {
        Seq::empty()
    } else {
        name.subrange(last_dot(name) + 1, name.len() as int)
    }
}

/// The `n`-th name tried for `name`: the name itself for 0, then
/// `<stem>-<n>.<ext>`.
pub open spec fn candidate(name: Seq<char>, n: nat) -> Seq<char> {
    if n == 0 {
        name
    } else {
        stem_of(name) + seq!['-'] + decimal(n) + seq!['.'] + ext_of(name)
    }
}

/// `name` is one of the entries in `taken`.
pub open spec fn is_taken(taken: Seq<String>, name: Seq<char>) -> bool {
    exists|i: int| 0 <= i < taken.len() && #[trigger] taken[i]@ == name
}

/// `n` is the least index whose candidate is not taken.
pub open spec fn first_free(name: Seq<char>, taken: Seq<String>, n: nat) -> bool {
    &&& !is_taken(taken, candidate(name, n))
    &&& forall|m: nat| m < n ==> is_taken(taken, #[trigger] candidate(name, m))
}

proof fn lemma_last_dot_prefix(s: Seq<char>, i: int)
    requires
        0 <= i < s.len(),
        s[i] != '.',
    ensures
        last_dot(s.subrange(0, i + 1)) == last_dot(s.subrange(0, i)),
{
    assert(s.subrange(0, i + 1).drop_last() =~= s.subrange(0, i));
}

proof fn lemma_last_dot_range(s: Seq<char>)
    ensures
        -1 <= last_dot(s) < s.len(),
        last_dot(s) >= 0 ==> s[last_dot(s)] == '.',
    decreases s.len(),
{
    if s.len() > 0 && s.last() != '.' {
        lemma_last_dot_range(s.drop_last());
    }
}

proof fn lemma_digit_char_injective(a: nat, b: nat)
    requires
        a < 10,
        b < 10,
        digit_char(a) == digit_char(b),
    ensures
        a == b,
{
    let d = seq!['0', '1', '2', '3', '4', '5', '6', '7', '8', '9'];
    assert(d[0] == '0' && d[1] == '1' && d[2] == '2' && d[3] == '3' && d[4] == '4');
    assert(d[5] == '5' && d[6] == '6' && d[7] == '7' && d[8] == '8' && d[9] == '9');
}

proof fn lemma_decimal_len(n: nat)
    ensures
        decimal(n).len() >= 1,
        n >= 10 ==> decimal(n).len() >= 2,
    decreases n,
{
    if n >= 10 {
        lemma_decimal_len(n / 10);
    }
}

proof fn lemma_decimal_injective(a: nat, b: nat)
    requires
        decimal(a) == decimal(b),
    ensures
        a == b,
    decreases a,
{
    lemma_decimal_len(a);
    lemma_decimal_len(b);
    if a < 10 && b < 10 {
        assert(decimal(a)[0] == digit_char(a));
        assert(decimal(b)[0] == digit_char(b));
        lemma_digit_char_injective(a, b);
    } else if a >= 10 && b >= 10 {
        assert(decimal(a).last() == digit_char(a % 10));
        assert(decimal(b).last() == digit_char(b % 10));
        lemma_digit_char_injective(a % 10, b % 10);
        assert(decimal(a / 10) =~= decimal(a).drop_last());
        assert(decimal(b / 10) =~= decimal(b).drop_last());
        lemma_decimal_injective(a / 10, b / 10);
    }
}

proof fn lemma_stem_ext_len(name: Seq<char>)
    ensures
        stem_of(name).len() + ext_of(name).len() + 1 >= name.len(),
{
    lemma_last_dot_range(name);
}

proof fn lemma_candidate_injective(name: Seq<char>, a: nat, b: nat)
    requires
        candidate(name, a) == candidate(name, b),
    ensures
        a == b,
{
    lemma_decimal_len(a);
    lemma_decimal_len(b);
    lemma_stem_ext_len(name);
    let p = stem_of(name) + seq!['-'];
    let q = seq!['.'] + ext_of(name);
    if a > 0 && b > 0 {
        let ca = candidate(name, a);
        assert(ca =~= p + decimal(a) + q);
        assert(candidate(name, b) =~= p + decimal(b) + q);
        assert(decimal(a) =~= ca.subrange(p.len() as int, ca.len() - q.len()));
        assert(decimal(b) =~= ca.subrange(p.len() as int, ca.len() - q.len()));
        lemma_decimal_injective(a, b);
    } else if a > 0 {
        assert(candidate(name, a).len() > name.len());
    } else if b > 0 {
        assert(candidate(name, b).len() > name.len());
    }
}

/// Among the first `taken.len() + 1` candidates for a name, at least one is
/// not taken: the candidates are pairwise distinct and `taken` has fewer
/// entries.
pub proof fn lemma_some_candidate_free(name: Seq<char>, taken: Seq<String>)
    ensures
        exists|m: nat| m <= taken.len() && !is_taken(taken, #[trigger] candidate(name, m)),
{
    let len = taken.len() as int;
    let views = taken.map_values(|s: String| s@);
    let t = views.to_set();
    views.lemma_cardinality_of_set();
    let r = vstd::set_lib::set_int_range(0, len + 1);
    vstd::set_lib::lemma_int_range(0, len + 1);
    let f = |i: int| candidate(name, i as nat);
    let c = r.map(f);
    assert(vstd::relations::injective_on(f, r)) by {
        assert forall|x: int, y: int| r.contains(x) && r.contains(y) && #[trigger] f(x) == #[trigger] f(
            y,
        ) implies x == y by {
            lemma_candidate_injective(name, x as nat, y as nat);
        }
    }
    vstd::set_lib::lemma_map_size(r, c, f);
    if forall|m: nat| m <= taken.len() ==> is_taken(taken, #[trigger] candidate(name, m)) {
        assert(c.subset_of(t)) by {
            assert forall|x: Seq<char>| c.contains(x) implies t.contains(x) by {
                let i = choose|i: int| r.contains(i) && f(i) == x;
                assert(is_taken(taken, candidate(name, i as nat)));
                let j = choose|j: int| 0 <= j < taken.len() && #[trigger] taken[j]@ == candidate(
                    name,
                    i as nat,
                );
                assert(views[j] == x);
            }
        }
        vstd::set_lib::lemma_len_subset(c, t);
        assert(false);
    }
}

/// Index of the last `.` in `s`, if any.
fn find_last_dot(s: &str) -> (r: Option<usize>)
    ensures
        match r {
            Some(k) => last_dot(s@) == k as int,
            None => last_dot(s@) == -1,
        },
{
    let len = s.unicode_len();
    let mut i: usize = len;
    assert(s@.subrange(0, len as int) =~= s@);
    while i > 0
        invariant
            i <= len == s@.len(),
            last_dot(s@) == last_dot(s@.subrange(0, i as int)),
        decreases i,
    {
        let c = s.get_char(i - 1);
        if c == '.' {
            assert(s@.subrange(0, i as int).last() == '.');
            return Some(i - 1);
        }
        proof {
            lemma_last_dot_prefix(s@, i - 1);
        }
        i -= 1;
    }
    None
}

/// Appends the decimal notation of `n` to `s`.
fn push_decimal(s: &mut String, n: u64)
    ensures
        final(s)@ == old(s)@ + decimal(n as nat),
    decreases n,
{
    let digits = "0123456789";
    proof {
        reveal_strlit("0123456789");
    }
    if n >= 10 {
        push_decimal(s, n / 10);
    }
    let d = (n % 10) as usize;
    let one = digits.substring_char(d, d + 1);
    assert(one@ =~= seq![digit_char(d as nat)]);
    s.append(one);
    assert(s@ =~= old(s)@ + decimal(n as nat));
}

/// The `n`-th name tried for `name` (see [`candidate`]).
pub fn candidate_name(name: &str, n: u64) -> (r: String)
    ensures
        r@ == candidate(name@, n as nat),
{
    if n == 0 {
        return String::from_str(name);
    }
    let len = name.unicode_len();
    let dot = find_last_dot(name);
    proof {
        lemma_last_dot_range(name@);
    }
    let (stem, ext) = match dot {
        Some(k) if k > 0 => (name.substring_char(0, k), name.substring_char(k + 1, len)),
        _ => (name, ""),
    };
    proof {
        reveal_strlit("");
        reveal_strlit("-");
        reveal_strlit(".");
    }
    let mut r = String::from_str(stem);
    r.append("-");
    push_decimal(&mut r, n);
    r.append(".");
    r.append(ext);
    assert(r@ =~= candidate(name@, n as nat));
    r
}

/// Whether some entry of `taken` equals `name`.
fn contains_name(taken: &Vec<String>, name: &String) -> (r: bool)
    ensures
        r == is_taken(taken@, name@),
{
    let mut i: usize = 0;
    while i < taken.len()
        invariant
            i <= taken.len(),
            forall|j: int| 0 <= j < i ==> taken@[j]@ != name@,
        decreases taken.len() - i,
    {
        if taken[i] == *name {
            return true;
        }
        i += 1;
    }
    false
}

/// Picks the name under which a file called `filename` is stored in a
/// directory whose entries are `taken`: the name itself when free, else
/// `<stem>-<n>.<ext>` for the least `n >= 1` that is free.
pub fn get_unique_filename(filename: &str, taken: &Vec<String>) -> (r: String)
    ensures
        exists|n: nat| n <= taken.len() && #[trigger] candidate(filename@, n) == r@ && first_free(
            filename@,
            taken@,
            n,
        ),
{
    let mut count: usize = 0;
    loop
        invariant
            count <= taken.len(),
            forall|m: nat| m < count ==> is_taken(taken@, #[trigger] candidate(filename@, m)),
        decreases taken.len() - count,
    {
        let name = candidate_name(filename, count as u64);
        if !contains_name(taken, &name) {
            assert(first_free(filename@, taken@, count as nat));
            return name;
        }
        if count == taken.len() {
            proof {
                lemma_some_candidate_free(filename@, taken@);
                let m = choose|m: nat| m <= taken.len() && !is_taken(
                    taken@,
                    #[trigger] candidate(filename@, m),
                );
                if m < count {
                }
                assert(false);
            }
            return name;
        }
        count += 1;
    }
}

} // verus!

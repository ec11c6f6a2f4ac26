use itertools::Itertools;
use vstd::prelude::*;

verus! {

/// The decimal digit for `d < 10`.
pub open spec fn digit_char(d: nat) -> char {
    if d == 0 {
        '0'
    } else if d == 1 {
        '1'
    } else if d == 2 {
        '2'
    } else if d == 3 {
        '3'
    } else if d == 4 {
        '4'
    } else if d == 5 {
        '5'
    } else if d == 6 {
        '6'
    } else if d == 7 {
        '7'
    } else if d == 8 {
        '8'
    } else {
        '9'
    }
}

/// The decimal notation of `n`, without leading zeros.
pub open spec fn decimal(n: nat) -> Seq<char>
    decreases n,
{
    if n < 10 {
        seq![digit_char(n)]
    } else {
        decimal(n / 10).push(digit_char(n % 10))
    }
}

/// The decimal notation of `n`, with an underscore between each group of
/// three digits counted from the right.
pub open spec fn underscored(n: nat) -> Seq<char>
    decreases n,
{
    if n < 1000 {
        decimal(n)
    } else {
        underscored(n / 1000).push('_').push(digit_char((n % 1000) / 100)).push(
            digit_char((n % 100) / 10),
        ).push(digit_char(n % 10))
    }
}

/// Whether all counts in `v` are equal.
pub open spec fn all_equal(v: Seq<usize>) -> bool {
    forall|i: int| 0 <= i < v.len() - 1 ==> #[trigger] v[i] == v[i + 1]
}

/// The counts of `v`, each underscored, separated by a comma and a space.
pub open spec fn joined(v: Seq<usize>) -> Seq<char>
    decreases v.len(),
{
    if v.len() == 0 {
        Seq::empty()
    } else if v.len() == 1 {
        underscored(v[0] as nat)
    } else {
        joined(v.drop_last()) + seq![',', ' '] + underscored(v.last() as nat)
    }
}

/// How a group of shard counts is shown: more than three equal counts are
/// abbreviated to the first two and their number.
pub open spec fn count_text(v: Seq<usize>) -> Seq<char> {
    if v.len() > 3 && all_equal(v) {
        seq!['['] + decimal(v[0] as nat) + seq![',', ' '] + decimal(v[0] as nat) + seq![
            ',',
            ' ',
            '.',
            '.',
            '.',
            'x',
        ] + decimal(v.len()) + seq![']']
    } else {
        seq!['['] + joined(v) + seq![']']
    }
}

/// How a serialized size is shown: `0` stands for no size.
pub open spec fn ser_size_text(size: nat) -> Seq<char> {
    if size == 0 {
        seq!['u', 'n', 'a', 'v', 'a', 'i', 'l', 'a', 'b', 'l', 'e']
    } else if size <= 2000 {
        decimal(size)
    } else {
        decimal(size / 1024).push('k')
    }
}

/// Relies on std's `String::push`: appends one character.
#[verifier::external_body]
fn push_char(s: &mut String, c: char)
    ensures
        final(s)@ == old(s)@.push(c),
{
    s.push(c);
}

fn same_count(a: usize, b: usize) -> (r: bool)
    ensures
        r == (a == b),
{
    a == b
}

/// Relies on itertools' `tuple_windows`: it yields each pair of neighbours
/// in order, so `all` sees every adjacent pair.
#[verifier::external_body]
fn neighbours_equal(v: &[usize]) -> (r: bool)
    ensures
        r == all_equal(v@),
{
    v.iter().tuple_windows().all(|(a, b): (&usize, &usize)| same_count(*a, *b))
}

fn digit(d: usize) -> (r: char)
    requires
        d < 10,
    ensures
        r == digit_char(d as nat),
{
    if d == 0 {
        '0'
    } else if d == 1 {
        '1'
    } else if d == 2 {
        '2'
    } else if d == 3 {
        '3'
    } else if d == 4 {
        '4'
    } else if d == 5 {
        '5'
    } else if d == 6 {
        '6'
    } else if d == 7 {
        '7'
    } else if d == 8 {
        '8'
    } else {
        '9'
    }
}

fn push_decimal(s: &mut String, n: usize)
    ensures
        final(s)@ == old(s)@ + decimal(n as nat),
    decreases n,
{
    if n >= 10 {
        push_decimal(s, n / 10);
    }
    push_char(s, digit(n % 10));
    proof {
        assert(old(s)@ + decimal(n as nat) =~= final(s)@) by {
            if n >= 10 {
                assert(decimal(n as nat) == decimal((n / 10) as nat).push(digit_char((n % 10) as nat)));
            }
        }
    }
}

fn push_underscored(s: &mut String, n: usize)
    ensures
        final(s)@ == old(s)@ + underscored(n as nat),
    decreases n,
{
    if n >= 1000 {
        push_underscored(s, n / 1000);
        push_char(s, '_');
        push_char(s, digit((n % 1000) / 100));
        push_char(s, digit((n % 100) / 10));
        push_char(s, digit(n % 10));
        proof {
            assert(old(s)@ + underscored(n as nat) =~= final(s)@);
        }
    } else {
        push_decimal(s, n);
    }
}

/// `n` in decimal, with an underscore between groups of three digits.
pub fn separate_with_underscores(n: usize) -> (r: String)
    ensures
        r@ == underscored(n as nat),
{
    let mut s = String::new();
    push_underscored(&mut s, n);
    proof {
        assert(s@ =~= underscored(n as nat));
    }
    s
}

/// Shows a group of shard counts, as in `[1_000, 3_000_000]` or
/// `[1000, 1000, ...x1000]`.
pub fn pretty_print_count(count_group: &[usize]) -> (r: String)
    ensures
        r@ == count_text(count_group@),
{
    let n = count_group.len();
    let mut s = String::new();
    push_char(&mut s, '[');
    if n > 3 && neighbours_equal(count_group) {
        let first = count_group[0];
        push_decimal(&mut s, first);
        push_char(&mut s, ',');
        push_char(&mut s, ' ');
        push_decimal(&mut s, first);
        push_char(&mut s, ',');
        push_char(&mut s, ' ');
        push_char(&mut s, '.');
        push_char(&mut s, '.');
        push_char(&mut s, '.');
        push_char(&mut s, 'x');
        push_decimal(&mut s, n);
        push_char(&mut s, ']');
        proof {
            assert(s@ =~= count_text(count_group@));
        }
        return s;
    }
    let mut i: usize = 0;
    while i < n
        invariant
            i <= n,
            n == count_group@.len(),
            s@ == seq!['['] + joined(count_group@.subrange(0, i as int)),
        decreases n - i,
    {
        if i > 0 {
            push_char(&mut s, ',');
            push_char(&mut s, ' ');
        }
        push_underscored(&mut s, count_group[i]);
        proof {
            let sub = count_group@.subrange(0, i + 1);
            assert(sub.drop_last() =~= count_group@.subrange(0, i as int));
            assert(s@ =~= seq!['['] + joined(sub));
        }
        i = i + 1;
    }
    push_char(&mut s, ']');
    proof {
        assert(count_group@.subrange(0, n as int) =~= count_group@);
        assert(s@ =~= count_text(count_group@));
    }
    s
}

/// Shows a serialized size in bytes: `unavailable` for `0`, the number up
/// to 2000, whole kibibytes with a `k` above.
pub fn pretty_print_ser_size(size: usize) -> (r: String)
    ensures
        r@ == ser_size_text(size as nat),
{
    let mut s = String::new();
    if size == 0 {
        push_char(&mut s, 'u');
        push_char(&mut s, 'n');
        push_char(&mut s, 'a');
        push_char(&mut s, 'v');
        push_char(&mut s, 'a');
        push_char(&mut s, 'i');
        push_char(&mut s, 'l');
        push_char(&mut s, 'a');
        push_char(&mut s, 'b');
        push_char(&mut s, 'l');
        push_char(&mut s, 'e');
    } else if size <= 2000 {
        push_decimal(&mut s, size);
    } else {
        push_decimal(&mut s, size / 1024);
        push_char(&mut s, 'k');
    }
    proof {
        assert(s@ =~= ser_size_text(size as nat));
    }
    s
}

} // verus!

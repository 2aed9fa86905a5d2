//! Recognition of IPv4 address literals in the dotted-decimal form that the
//! standard library's address parser accepts: four decimal groups of one to
//! three digits, each at most 255, with no leading zero in a group of more
//! than one digit.
use vstd::prelude::*;

verus! {

pub open spec fn is_digit(c: char) -> bool {
    '0' <= c && c <= '9'
}

pub open spec fn digit_value(c: char) -> int {
    (c as int) - ('0' as int)
}

/// The number that the decimal digits `g` spell.
pub open spec fn decimal_value(g: Seq<char>) -> int
    decreases g.len(),
{
    if g.len() == 0 {
        0
    } else {
        decimal_value(g.drop_last()) * 10 + digit_value(g.last())
    }
}

/// One group of an IPv4 literal.
pub open spec fn is_octet(g: Seq<char>) -> bool {
    &&& 1 <= g.len() <= 3
    &&& forall|k: int| 0 <= k < g.len() ==> is_digit(#[trigger] g[k])
    &&& (g.len() > 1 ==> g[0] != '0')
    &&& decimal_value(g) <= 255
}

/// The pieces of `s` between the dots (`s.split('.')`).
pub open spec fn split_dots(s: Seq<char>) -> Seq<Seq<char>>
    decreases s.len(),
{
    if s.len() == 0 {
        seq![Seq::<char>::empty()]
    } else {
        let p = split_dots(s.drop_last());
        if s.last() == '.' {
            p.push(Seq::<char>::empty())
        } else {
            p.update(p.len() - 1, p.last().push(s.last()))
        }
    }
}

/// `s` is an IPv4 address literal.
pub open spec fn is_ipv4_literal(s: Seq<char>) -> bool {
    let parts = split_dots(s);
    &&& parts.len() == 4
    &&& forall|i: int| 0 <= i < 4 ==> is_octet(#[trigger] parts[i])
}

pub proof fn lemma_split_dots_nonempty(s: Seq<char>)
    ensures
        split_dots(s).len() >= 1,
    decreases s.len(),
{
    if s.len() > 0 {
        lemma_split_dots_nonempty(s.drop_last());
    }
}

/// An IPv4 literal ends with a digit: a host name whose last character is
/// a letter or a dot is never taken for an IP address.
pub proof fn law_ipv4_literal_ends_with_a_digit(s: Seq<char>)
    requires
        is_ipv4_literal(s),
    ensures
        s.len() > 0,
        is_digit(s.last()),
{
    let parts = split_dots(s);
    assert(is_octet(parts[3]));
    if s.len() == 0 {
        assert(parts.len() == 1);
    } else {
        lemma_split_dots_nonempty(s.drop_last());
        let p = split_dots(s.drop_last());
        if s.last() == '.' {
            assert(parts[3] == Seq::<char>::empty());
        } else {
            assert(parts[3] == p.last().push(s.last()));
            assert(parts[3][parts[3].len() - 1] == s.last());
        }
    }
}

spec fn below_power(len: int, v: int) -> bool {
    if len == 0 {
        v < 1
    } else if len == 1 {
        v < 10
    } else if len == 2 {
        v < 100
    } else {
        v < 1000
    }
}

/// Whether `s` is an IPv4 address literal.
pub fn is_ipv4_chars(s: &[char]) -> (r: bool)
    ensures
        r == is_ipv4_literal(s@),
{
    let n = s.len();
    let mut groups: usize = 0;
    let mut ok = true;
    let mut cur_len: usize = 0;
    let mut cur_digits = true;
    let mut cur_val: u32 = 0;
    let mut cur_zero = false;
    let mut i: usize = 0;
    assert(s@.take(0) =~= Seq::<char>::empty());
    while i < n
        invariant
            n == s@.len(),
            i <= n,
            groups <= i,
            cur_len <= i,
            split_dots(s@.take(i as int)).len() >= 1,
            groups == split_dots(s@.take(i as int)).len() - 1,
            ok == (forall|j: int|
                0 <= j < groups ==> is_octet(#[trigger] split_dots(s@.take(i as int))[j])),
            cur_len == split_dots(s@.take(i as int)).last().len(),
            cur_digits == (forall|k: int|
                0 <= k < cur_len ==> is_digit(
                    #[trigger] split_dots(s@.take(i as int)).last()[k],
                )),
            cur_digits && cur_len <= 3 ==> cur_val == decimal_value(
                split_dots(s@.take(i as int)).last(),
            ),
            cur_digits && cur_len <= 3 ==> below_power(cur_len as int, cur_val as int),
            cur_len > 0 ==> (cur_zero == (split_dots(s@.take(i as int)).last()[0] == '0')),
        decreases n - i,
    {
        let ghost t = s@.take(i as int);
        let ghost p = split_dots(t);
        let ghost last = p.last();
        let c = s[i];
        let ghost t2 = s@.take(i + 1);
        assert(t2.drop_last() =~= t);
        assert(t2.last() == c);
        proof {
            lemma_split_dots_nonempty(t2);
        }
        if c == '.' {
            let cur_ok = cur_len >= 1 && cur_len <= 3 && cur_digits && !(cur_len > 1 && cur_zero)
                && cur_val <= 255;
            assert(cur_ok == is_octet(last));
            let ghost p2 = split_dots(t2);
            assert(p2 == p.push(Seq::<char>::empty()));
            assert(forall|j: int| 0 <= j < groups ==> p2[j] == p[j]);
            assert(p2[groups as int] == last);
            ok = ok && cur_ok;
            groups = groups + 1;
            cur_len = 0;
            cur_digits = true;
            cur_val = 0;
            cur_zero = false;
            assert(p2.last() =~= Seq::<char>::empty());
        } else {
            let ghost p2 = split_dots(t2);
            let ghost last2 = last.push(c);
            assert(p2 == p.update(p.len() - 1, last2));
            assert(p2.last() == last2);
            assert(forall|j: int| 0 <= j < groups ==> p2[j] == p[j]);
            assert(last2.drop_last() =~= last);
            assert(forall|k: int| 0 <= k < cur_len ==> last2[k] == last[k]);
            let d = '0' <= c && c <= '9';
            assert(last2[cur_len as int] == c);
            assert((cur_digits && d) == (forall|k: int|
                0 <= k < cur_len + 1 ==> is_digit(#[trigger] last2[k]))) by {
                if cur_digits && d {
                    assert forall|k: int| 0 <= k < cur_len + 1 implies is_digit(last2[k]) by {
                        if k < cur_len {
                            assert(last2[k] == last[k]);
                        }
                    }
                } else if !d {
                    assert(!is_digit(last2[cur_len as int]));
                } else {
                    let k = choose|k: int| 0 <= k < cur_len && !is_digit(#[trigger] last[k]);
                    assert(last2[k] == last[k]);
                }
            }
            if cur_len == 0 {
                cur_zero = c == '0';
            } else {
                assert(last2[0] == last[0]);
            }
            if cur_digits && d && cur_len < 3 {
                cur_val = cur_val * 10 + ((c as u32) - 48);
            }
            cur_digits = cur_digits && d;
            cur_len = cur_len + 1;
        }
        i = i + 1;
    }
    assert(s@.take(n as int) =~= s@);
    let last_ok = cur_len >= 1 && cur_len <= 3 && cur_digits && !(cur_len > 1 && cur_zero) && cur_val
        <= 255;
    assert(last_ok == is_octet(split_dots(s@).last()));
    groups == 3 && ok && last_ok
}

} // verus!

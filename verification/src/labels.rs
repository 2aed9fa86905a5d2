//! Window labels of the slot pool: slot `n` is the window `web-<n + 1>`.
use vstd::prelude::*;

use crate::ipv4::{decimal_value, digit_value, is_digit};

verus! {

/// Label of the first slot's window.
pub const LABEL: &'static str = "web-1";

/// Number of window slots that are created at start-up.
pub const SLOT: usize = 1;

/// The decimal digit character for `d` (`0 <= d < 10`).
pub open spec fn digit_char(d: nat) -> char {
    if d == 0 {
        '0'
    } else if d == 1 {
        '1'
    } else if d == 2 {
        '2'
    } else if d == 3 {
        '3'
    } else if d == 4 {
        '4'
    } else if d == 5 {
        '5'
    } else if d == 6 {
        '6'
    } else if d == 7 {
        '7'
    } else if d == 8 {
        '8'
    } else {
        '9'
    }
}

/// The decimal notation of `n`, without leading zeros.
pub open spec fn decimal(n: nat) -> Seq<char>
    decreases n,
{
    if n < 10 {
        seq![digit_char(n)]
    } else {
        decimal(n / 10).push(digit_char(n % 10))
    }
}

/// The label of the window in slot `slot`.
pub open spec fn label_for(slot: nat) -> Seq<char> {
    "web-"@ + decimal(slot + 1)
}

fn digit_str(d: usize) -> (r: &'static str)
    requires
        d < 10,
    ensures
        r@ == seq![digit_char(d as nat)],
{
    if d == 0 {
        proof {
            reveal_strlit("0");
        }
        "0"
    } else if d == 1 {
        proof {
            reveal_strlit("1");
        }
        "1"
    } else if d == 2 {
        proof {
            reveal_strlit("2");
        }
        "2"
    } else if d == 3 {
        proof {
            reveal_strlit("3");
        }
        "3"
    } else if d == 4 {
        proof {
            reveal_strlit("4");
        }
        "4"
    } else if d == 5 {
        proof {
            reveal_strlit("5");
        }
        "5"
    } else if d == 6 {
        proof {
            reveal_strlit("6");
        }
        "6"
    } else if d == 7 {
        proof {
            reveal_strlit("7");
        }
        "7"
    } else if d == 8 {
        proof {
            reveal_strlit("8");
        }
        "8"
    } else {
        proof {
            reveal_strlit("9");
        }
        "9"
    }
}

/// Appends the decimal notation of `n` to `out`.
fn push_decimal(out: &mut String, n: usize)
    ensures
        final(out)@ == old(out)@ + decimal(n as nat),
    decreases n,
{
    if n >= 10 {
        push_decimal(out, n / 10);
    }
    out.append(digit_str(n % 10));
}

/// The window label of slot `slot`: `web-1` for the first slot, `web-2`,
/// `web-3`, ... for the others.
pub fn label_of(slot: usize) -> (r: String)
    requires
        slot < usize::MAX,
    ensures
        r@ == label_for(slot as nat),
{
    if slot == 0 {
        proof {
            reveal_strlit("web-1");
            reveal_strlit("web-");
            assert(decimal(1) =~= seq!['1']);
        }
        String::from_str(LABEL)
    } else {
        let mut s = String::from_str("web-");
        push_decimal(&mut s, slot + 1);
        s
    }
}

proof fn lemma_decimal_len(n: nat)
    ensures
        decimal(n).len() >= 1,
        decimal(n).len() == 1 <==> n < 10,
    decreases n,
{
    if n >= 10 {
        lemma_decimal_len(n / 10);
    }
}

proof fn lemma_digit_char_injective(a: nat, b: nat)
    requires
        a < 10,
        b < 10,
        digit_char(a) == digit_char(b),
    ensures
        a == b,
{
}

/// Different numbers have different decimal notations.
pub proof fn lemma_decimal_injective(a: nat, b: nat)
    requires
        decimal(a) == decimal(b),
    ensures
        a == b,
    decreases a,
{
    lemma_decimal_len(a);
    lemma_decimal_len(b);
    if a < 10 {
        assert(decimal(a)[0] == digit_char(a));
        assert(decimal(b)[0] == digit_char(b));
        lemma_digit_char_injective(a, b);
    } else {
        let da = decimal(a);
        let db = decimal(b);
        assert(da.last() == digit_char(a % 10));
        assert(db.last() == digit_char(b % 10));
        lemma_digit_char_injective(a % 10, b % 10);
        assert(da.drop_last() =~= decimal(a / 10));
        assert(db.drop_last() =~= decimal(b / 10));
        lemma_decimal_injective(a / 10, b / 10);
    }
}

/// Labels are one-based: the first slot is `LABEL` (`web-1`), the second
/// `web-2`.
pub proof fn law_labels_are_one_based()
    ensures
        label_for(0) == LABEL@,
        label_for(0) == "web-1"@,
        label_for(1) == "web-2"@,
{
    reveal_strlit("web-1");
    reveal_strlit("web-2");
    reveal_strlit("web-");
    assert(label_for(0) =~= "web-1"@);
    assert(label_for(1) =~= "web-2"@);
}

/// Two different slots never share a window label.
pub proof fn law_labels_are_distinct(a: nat, b: nat)
    requires
        a != b,
    ensures
        label_for(a) != label_for(b),
{
    if label_for(a) == label_for(b) {
        let p = "web-"@;
        assert(label_for(a).subrange(p.len() as int, label_for(a).len() as int) =~= decimal(
            a + 1,
        ));
        assert(label_for(b).subrange(p.len() as int, label_for(b).len() as int) =~= decimal(
            b + 1,
        ));
        lemma_decimal_injective(a + 1, b + 1);
    }
}

proof fn lemma_digit_char(d: nat)
    requires
        d < 10,
    ensures
        is_digit(digit_char(d)),
        digit_value(digit_char(d)) == d,
{
}

/// The decimal notation of `n` is made of digits, has no leading zero
/// (unless `n` is zero), and reads back as `n`.
pub proof fn law_decimal_reads_back(n: nat)
    ensures
        decimal(n).len() >= 1,
        forall|k: int| 0 <= k < decimal(n).len() ==> is_digit(#[trigger] decimal(n)[k]),
        n > 0 ==> decimal(n)[0] != '0',
        decimal_value(decimal(n)) == n,
    decreases n,
{
    lemma_digit_char(n % 10);
    if n >= 10 {
        law_decimal_reads_back(n / 10);
        let p = decimal(n / 10);
        let d = decimal(n);
        assert(d.drop_last() =~= p);
        assert forall|k: int| 0 <= k < d.len() implies is_digit(#[trigger] d[k]) by {
            if k < p.len() {
                assert(d[k] == p[k]);
            }
        }
        assert(d[0] == p[0]);
        assert(d.last() == digit_char(n % 10));
        assert(decimal_value(d) == decimal_value(p) * 10 + digit_value(d.last()));
    } else {
        assert(decimal(n).drop_last() =~= Seq::<char>::empty());
        assert(decimal_value(decimal(n)) == decimal_value(decimal(n).drop_last()) * 10
            + digit_value(decimal(n).last()));
    }
}

/// Every window label is `web-` followed by the decimal notation of the
/// slot's number counted from one, which reads back as that number.
pub proof fn law_label_spells_the_slot_number(slot: nat)
    ensures
        label_for(slot).subrange(0, 4) == "web-"@,
        decimal_value(label_for(slot).subrange(4, label_for(slot).len() as int)) == slot + 1,
{
    reveal_strlit("web-");
    law_decimal_reads_back(slot + 1);
    assert(label_for(slot).subrange(0, 4) =~= "web-"@);
    assert(label_for(slot).subrange(4, label_for(slot).len() as int) =~= decimal(slot + 1));
}

} // verus!

//! Deterministic derivation of slot names: a local slot `i` is named
//! `local{i}`, an argument slot `k` is named `arg{k}`. Two derived names are
//! equal exactly when they refer to the same slot, which is what makes the
//! name a usable identity for storage locations.

use vstd::prelude::*;

verus! {

/// The character for one decimal digit.
pub open spec fn digit_char(d: nat) -> char {
    if d == 0 {
        '0'
    } else if d == 1 {
        '1'
    } else if d == 2 {
        '2'
    } else if d == 3 {
        '3'
    } else if d == 4 {
        '4'
    } else if d == 5 {
        '5'
    } else if d == 6 {
        '6'
    } else if d == 7 {
        '7'
    } else if d == 8 {
        '8'
    } else {
        '9'
    }
}

/// The decimal rendering of `n`, most significant digit first, without
/// leading zeros (`0` renders as "0").
pub open spec fn dec_seq(n: nat) -> Seq<char>
    decreases n,
{
    if n < 10 {
        seq![digit_char(n)]
    } else {
        dec_seq(n / 10).push(digit_char(n % 10))
    }
}

/// The derived name of local slot `i`.
pub open spec fn local_name_seq(i: nat) -> Seq<char> {
    "local"@ + dec_seq(i)
}

/// The derived name of argument slot `k`.
pub open spec fn arg_name_seq(k: nat) -> Seq<char> {
    "arg"@ + dec_seq(k)
}

fn digit_str(d: usize) -> (r: &'static str)
    requires
        d < 10,
    ensures
        r@ == seq![digit_char(d as nat)],
{
    proof {
        reveal_strlit("0");
        reveal_strlit("1");
        reveal_strlit("2");
        reveal_strlit("3");
        reveal_strlit("4");
        reveal_strlit("5");
        reveal_strlit("6");
        reveal_strlit("7");
        reveal_strlit("8");
        reveal_strlit("9");
    }
    let r = match d {
        0 => "0",
        1 => "1",
        2 => "2",
        3 => "3",
        4 => "4",
        5 => "5",
        6 => "6",
        7 => "7",
        8 => "8",
        _ => "9",
    };
    proof {
        assert(r@ =~= seq![digit_char(d as nat)]);
    }
    r
}

/// Renders `n` in decimal.
pub fn dec_string(n: usize) -> (s: String)
    ensures
        s@ == dec_seq(n as nat),
    decreases n,
{
    if n < 10 {
        String::from_str(digit_str(n))
    } else {
        let mut s = dec_string(n / 10);
        s.append(digit_str(n % 10));
        proof {
            assert(s@ =~= dec_seq(n as nat));
        }
        s
    }
}

/// Renders the name of local slot `i`.
pub fn local_name(i: usize) -> (s: String)
    ensures
        s@ == local_name_seq(i as nat),
{
    let mut s = String::from_str("local");
    s.append(dec_string(i).as_str());
    proof {
        assert(s@ =~= local_name_seq(i as nat));
    }
    s
}

/// Renders the name of argument slot `k`.
pub fn arg_name(k: usize) -> (s: String)
    ensures
        s@ == arg_name_seq(k as nat),
{
    let mut s = String::from_str("arg");
    s.append(dec_string(k).as_str());
    proof {
        assert(s@ =~= arg_name_seq(k as nat));
    }
    s
}

/// A decimal rendering has at least one character, and at least two once the
/// number has two digits.
proof fn lemma_dec_seq_len(n: nat)
    ensures
        dec_seq(n).len() >= 1,
        n >= 10 ==> dec_seq(n).len() >= 2,
    decreases n,
{
    if n >= 10 {
        lemma_dec_seq_len(n / 10);
    }
}

/// Distinct digits render to distinct characters.
proof fn lemma_digit_char_injective(a: nat, b: nat)
    requires
        a < 10,
        b < 10,
        digit_char(a) == digit_char(b),
    ensures
        a == b,
{
}

/// Distinct numbers render to distinct decimal strings.
proof fn lemma_dec_seq_injective(a: nat, b: nat)
    requires
        dec_seq(a) == dec_seq(b),
    ensures
        a == b,
    decreases a,
{
    lemma_dec_seq_len(a);
    lemma_dec_seq_len(b);
    if a < 10 && b < 10 {
        assert(dec_seq(a)[0] == digit_char(a));
        assert(dec_seq(b)[0] == digit_char(b));
        lemma_digit_char_injective(a, b);
    } else if a >= 10 && b >= 10 {
        assert(dec_seq(a) == dec_seq(a / 10).push(digit_char(a % 10)));
        assert(dec_seq(b) == dec_seq(b / 10).push(digit_char(b % 10)));
        assert(dec_seq(a).last() == digit_char(a % 10));
        assert(dec_seq(b).last() == digit_char(b % 10));
        lemma_digit_char_injective(a % 10, b % 10);
        assert(dec_seq(a).drop_last() =~= dec_seq(a / 10));
        assert(dec_seq(b).drop_last() =~= dec_seq(b / 10));
        lemma_dec_seq_injective(a / 10, b / 10);
    } else if a < 10 {
        assert(dec_seq(b).len() >= 2);
    } else {
        assert(dec_seq(a).len() >= 2);
    }
}

/// Local-slot names are injective: equal names mean equal slot indices.
pub proof fn lemma_local_name_injective(i: nat, j: nat)
    requires
        local_name_seq(i) == local_name_seq(j),
    ensures
        i == j,
{
    reveal_strlit("local");
    assert(dec_seq(i) =~= local_name_seq(i).subrange(5, local_name_seq(i).len() as int));
    assert(dec_seq(j) =~= local_name_seq(j).subrange(5, local_name_seq(j).len() as int));
    lemma_dec_seq_injective(i, j);
}

/// Argument-slot names are injective: equal names mean equal slot indices.
pub proof fn lemma_arg_name_injective(i: nat, j: nat)
    requires
        arg_name_seq(i) == arg_name_seq(j),
    ensures
        i == j,
{
    reveal_strlit("arg");
    assert(dec_seq(i) =~= arg_name_seq(i).subrange(3, arg_name_seq(i).len() as int));
    assert(dec_seq(j) =~= arg_name_seq(j).subrange(3, arg_name_seq(j).len() as int));
    lemma_dec_seq_injective(i, j);
}

/// Derived names are a faithful identity for storage slots: two local
/// names, or two argument names, are equal exactly when their indices are,
/// and a local name never collides with an argument name. Comparing two
/// stack-indexed references by name therefore decides whether they denote
/// the same slot.
pub proof fn lemma_slot_name_identity(i: nat, k: nat)
    ensures
        local_name_seq(i) == local_name_seq(k) <==> i == k,
        arg_name_seq(i) == arg_name_seq(k) <==> i == k,
        local_name_seq(i) != arg_name_seq(k),
{
    if local_name_seq(i) == local_name_seq(k) {
        lemma_local_name_injective(i, k);
    }
    if arg_name_seq(i) == arg_name_seq(k) {
        lemma_arg_name_injective(i, k);
    }
    lemma_local_arg_names_distinct(i, k);
}

/// A local-slot name never collides with an argument-slot name.
pub proof fn lemma_local_arg_names_distinct(i: nat, k: nat)
    ensures
        local_name_seq(i) != arg_name_seq(k),
{
    reveal_strlit("local");
    reveal_strlit("arg");
    lemma_dec_seq_len(i);
    lemma_dec_seq_len(k);
    if local_name_seq(i) == arg_name_seq(k) {
        assert(local_name_seq(i)[0] == 'l');
        assert(arg_name_seq(k)[0] == 'a');
    }
}

} // verus!

//! The interval curve: how many days a record waits at each level.
//!
//! The curve is derived from the Fibonacci sequence, shrunk by a constant
//! factor and floored at one day, so early levels repeat daily while late
//! levels wait months.  The curve is copied onto each record at creation
//! time, so later changes to it never reschedule existing records.

use vstd::prelude::*;

verus! {

/// Number of levels a record climbs before it graduates.
pub const MAX_LEVEL: u8 = 20;

/// The Fibonacci sequence: 0, 1, 1, 2, 3, 5, ...
pub open spec fn spec_fib(n: nat) -> nat
    decreases n,
{
    if n == 0 {
        0
    } else if n == 1 {
        1
    } else {
        spec_fib((n - 1) as nat) + spec_fib((n - 2) as nat)
    }
}

/// Scale a curve point down to a day count.
pub open spec fn spec_shrink(n: nat) -> nat {
    n * 2 / 9
}

/// Wait interval (days) at level `n`: the growth of the shrunk Fibonacci
/// sequence between `n` and `n + 1`, floored at one day.
pub open spec fn spec_easing(n: nat) -> int {
    let d = spec_shrink(spec_fib(n + 1)) - spec_shrink(spec_fib(n));
    if d < 1 {
        1
    } else {
        d
    }
}

/// The Fibonacci sequence is monotone.
proof fn lemma_fib_mono(i: nat, j: nat)
    requires
        i <= j,
    ensures
        spec_fib(i) <= spec_fib(j),
    decreases j,
{
    if j > 1 && i < j {
        lemma_fib_mono(i, (j - 1) as nat);
    }
}

/// Concrete Fibonacci values up to the largest index the curve uses.
proof fn lemma_fib_values()
    ensures
        spec_fib(23) == 28657,
        spec_fib(24) == 46368,
{
    reveal_with_fuel(spec_fib, 26);
    assert(spec_fib(2) == 1);
    assert(spec_fib(3) == 2);
    assert(spec_fib(4) == 3);
    assert(spec_fib(5) == 5);
    assert(spec_fib(6) == 8);
    assert(spec_fib(7) == 13);
    assert(spec_fib(8) == 21);
    assert(spec_fib(9) == 34);
    assert(spec_fib(10) == 55);
    assert(spec_fib(11) == 89);
    assert(spec_fib(12) == 144);
    assert(spec_fib(13) == 233);
    assert(spec_fib(14) == 377);
    assert(spec_fib(15) == 610);
    assert(spec_fib(16) == 987);
    assert(spec_fib(17) == 1597);
    assert(spec_fib(18) == 2584);
    assert(spec_fib(19) == 4181);
    assert(spec_fib(20) == 6765);
    assert(spec_fib(21) == 10946);
    assert(spec_fib(22) == 17711);
    assert(spec_fib(23) == 28657);
    assert(spec_fib(24) == 46368);
}

/// Compute `spec_fib(n)` for the small indices the curve needs.
pub fn fibo(n: u8) -> (r: u16)
    requires
        n <= 24,
    ensures
        r as nat == spec_fib(n as nat),
    decreases n as nat,
{
    proof {
        lemma_fib_values();
        lemma_fib_mono(n as nat, 24);
    }
    match n {
        0 => 0,
        1 => 1,
        _ => {
            proof {
                lemma_fib_mono((n - 1) as nat, 24);
                lemma_fib_mono((n - 2) as nat, 24);
            }
            fibo(n - 1) + fibo(n - 2)
        },
    }
}

/// Compute `spec_shrink(n)`.
pub fn shrink(n: u16) -> (r: u16)
    requires
        n <= 32767,
    ensures
        r as nat == spec_shrink(n as nat),
{
    n * 2 / 9
}

/// Wait interval (days) at level `n`, per the interval curve.
pub fn default_easing(n: u8) -> (r: u16)
    requires
        n <= 22,
    ensures
        r as int == spec_easing(n as nat),
{
    proof {
        lemma_fib_values();
        lemma_fib_mono(n as nat, 23);
        lemma_fib_mono((n + 1) as nat, 23);
        lemma_fib_mono(n as nat, (n + 1) as nat);
        vstd::arithmetic::div_mod::lemma_div_is_ordered(
            spec_fib(n as nat) * 2 as int,
            spec_fib((n + 1) as nat) * 2 as int,
            9,
        );
    }
    let current_val = shrink(fibo(n));
    let next_val = shrink(fibo(n + 1));
    let diff = next_val - current_val;
    if diff == 0 {
        1
    } else {
        diff
    }
}

/// The whole interval curve, as a map from level to wait days.
pub fn new_easing_map(max_level: u8) -> (m: std::collections::HashMap<u8, u16>)
    requires
        max_level <= 23,
    ensures
        forall|i: u8| i < max_level ==> #[trigger] m@.contains_key(i),
        forall|i: u8| i < max_level ==> #[trigger] (m@[i]) as int == spec_easing(i as nat),
        forall|i: u8| m@.contains_key(i) ==> i < max_level,
{
    broadcast use vstd::std_specs::hash::group_hash_axioms;

    proof {
        assert(vstd::std_specs::hash::obeys_key_model::<u8>());
        assert(vstd::std_specs::hash::builds_valid_hashers::<std::hash::RandomState>());
    }
    let mut map: std::collections::HashMap<u8, u16> = std::collections::HashMap::new();
    let mut i: u8 = 0;
    while i < max_level
        invariant
            i <= max_level,
            max_level <= 23,
            vstd::std_specs::hash::obeys_key_model::<u8>(),
            vstd::std_specs::hash::builds_valid_hashers::<std::hash::RandomState>(),
            forall|k: u8| k < i ==> #[trigger] map@.contains_key(k),
            forall|k: u8| k < i ==> #[trigger] (map@[k]) as int == spec_easing(k as nat),
            forall|k: u8| map@.contains_key(k) ==> k < i,
        decreases max_level - i,
    {
        let v = default_easing(i);
        let ghost prev = map@;
        map.insert(i, v);
        proof {
            assert(map@ == prev.insert(i, v));
            assert(prev.insert(i, v).dom() == prev.dom().insert(i));
        }
        i = i + 1;
    }
    map
}

/// The whole interval curve, as a vector indexed by level.
pub fn level_up_path(max_level: u8) -> (p: Vec<u16>)
    requires
        max_level <= 23,
    ensures
        p@.len() == max_level as nat,
        forall|i: int| 0 <= i < max_level ==> p@[i] as int == spec_easing(i as nat),
{
    let mut p: Vec<u16> = Vec::new();
    let mut i: u8 = 0;
    while i < max_level
        invariant
            i <= max_level,
            max_level <= 23,
            p@.len() == i as nat,
            forall|k: int| 0 <= k < i ==> p@[k] as int == spec_easing(k as nat),
        decreases max_level - i,
    {
        p.push(default_easing(i));
        i = i + 1;
    }
    p
}

/// The interval curve as the learning table stores it: the wait-day counts
/// in level order, bracketed and comma-separated.
pub open spec fn spec_level_up_path_json(max_level: nat) -> Seq<char> {
    seq!['['] + crate::text::spec_join(
        Seq::new(max_level, |i: int| crate::text::spec_dec(spec_easing(i as nat) as nat)),
        seq![','],
    ) + seq![']']
}

/// Render the interval curve as [`spec_level_up_path_json`] says.
pub fn generate_level_up_path_json(max_level: u8) -> (s: String)
    requires
        max_level <= 23,
    ensures
        s@ == spec_level_up_path_json(max_level as nat),
{
    let ghost parts = Seq::new(
        max_level as nat,
        |i: int| crate::text::spec_dec(spec_easing(i as nat) as nat),
    );
    let mut s = String::new();
    crate::text::push_char(&mut s, '[');
    let mut i: u8 = 0;
    while i < max_level
        invariant
            max_level <= 23,
            i <= max_level,
            parts == Seq::new(
                max_level as nat,
                |k: int| crate::text::spec_dec(spec_easing(k as nat) as nat),
            ),
            s@ == seq!['['] + crate::text::spec_join(parts.take(i as int), seq![',']),
        decreases max_level - i,
    {
        if i > 0 {
            crate::text::push_char(&mut s, ',');
        }
        let d = default_easing(i);
        let t = crate::text::u64_to_string(d as u64);
        s.append(t.as_str());
        proof {
            assert(parts.take(i + 1).drop_last() =~= parts.take(i as int));
            assert(parts.take(i + 1).last() == parts[i as int]);
        }
        i = i + 1;
    }
    crate::text::push_char(&mut s, ']');
    proof {
        assert(parts.take(max_level as int) =~= parts);
    }
    s
}

} // verus!

use vstd::prelude::*;

verus! {

/// The character of a decimal digit.
pub open spec fn digit_char(d: nat) -> char {
    if d == 0 { '0' }
    else if d == 1 { '1' }
    else if d == 2 { '2' }
    else if d == 3 { '3' }
    else if d == 4 { '4' }
    else if d == 5 { '5' }
    else if d == 6 { '6' }
    else if d == 7 { '7' }
    else if d == 8 { '8' }
    else { '9' }
}

/// The decimal notation of `n`, without leading zeros.
pub open spec fn decimal(n: nat) -> Seq<char>
    decreases n,
{
    if n < 10 {
        seq![digit_char(n)]
    } else {
        decimal(n / 10).push(digit_char(n % 10))
    }
}

/// The id issued for counter value `n`: `id-<n>`.
pub open spec fn id_text(n: nat) -> Seq<char> {
    seq!['i', 'd', '-'] + decimal(n)
}

/// Issues context ids from a counter that only grows.
pub struct IdGenerator {
    next: u64,
}

impl IdGenerator {
    pub fn new() -> (r: IdGenerator)
        ensures
            r.counter() == 0,
    {
        IdGenerator { next: 0 }
    }

    /// The counter value the next id is issued for.
    pub closed spec fn counter(&self) -> nat {
        self.next as nat
    }

    /// The counter value the next id is issued for.
    pub fn counter_value(&self) -> (r: u64)
        ensures
            r == self.counter(),
    {
        self.next
    }
}

fn digit_str(d: u64) -> (s: &'static str)
    requires
        d < 10,
    ensures
        s@ == seq![digit_char(d as nat)],
{
    proof {
        reveal_strlit("0");
        reveal_strlit("1");
        reveal_strlit("2");
        reveal_strlit("3");
        reveal_strlit("4");
        reveal_strlit("5");
        reveal_strlit("6");
        reveal_strlit("7");
        reveal_strlit("8");
        reveal_strlit("9");
    }
    if d == 0 { "0" }
    else if d == 1 { "1" }
    else if d == 2 { "2" }
    else if d == 3 { "3" }
    else if d == 4 { "4" }
    else if d == 5 { "5" }
    else if d == 6 { "6" }
    else if d == 7 { "7" }
    else if d == 8 { "8" }
    else { "9" }
}

fn push_decimal(out: &mut String, n: u64)
    ensures
        final(out)@ == old(out)@ + decimal(n as nat),
    decreases n,
{
    if n >= 10 {
        push_decimal(out, n / 10);
    }
    out.append(digit_str(n % 10));
    proof {
        if n >= 10 {
            assert(old(out)@ + decimal(n as nat) =~= old(out)@ + decimal((n / 10) as nat) + seq![digit_char((n % 10) as nat)]);
        } else {
            assert(decimal(n as nat) == seq![digit_char(n as nat)]);
        }
    }
}

/// The decimal notation of `n`.
pub fn format_decimal(n: u64) -> (s: String)
    ensures
        s@ == decimal(n as nat),
{
    let mut s = String::new();
    push_decimal(&mut s, n);
    assert(s@ =~= decimal(n as nat));
    s
}

/// Issues the next id, `id-<n>` for the counter's current value `n`, and
/// advances the counter.
pub fn next_id(generator: &mut IdGenerator) -> (id: String)
    requires
        old(generator).counter() < u64::MAX,
    ensures
        id@ == id_text(old(generator).counter()),
        final(generator).counter() == old(generator).counter() + 1,
{
    let n = generator.next;
    generator.next = n + 1;
    let mut id = String::from_str("id-");
    proof {
        reveal_strlit("id-");
    }
    push_decimal(&mut id, n);
    id
}

proof fn lemma_digit_char_injective(a: nat, b: nat)
    requires
        a < 10,
        b < 10,
        digit_char(a) == digit_char(b),
    ensures
        a == b,
{
}

proof fn lemma_decimal_len(n: nat)
    ensures
        decimal(n).len() >= 1,
        n >= 10 ==> decimal(n).len() >= 2,
    decreases n,
{
    if n >= 10 {
        lemma_decimal_len(n / 10);
    }
}

proof fn lemma_decimal_injective(a: nat, b: nat)
    requires
        decimal(a) == decimal(b),
    ensures
        a == b,
    decreases a,
{
    lemma_decimal_len(a);
    lemma_decimal_len(b);
    if a < 10 && b < 10 {
        assert(decimal(a)[0] == digit_char(a));
        assert(decimal(b)[0] == digit_char(b));
        lemma_digit_char_injective(a, b);
    } else if a >= 10 && b >= 10 {
        let da = decimal(a);
        let db = decimal(b);
        assert(da.last() == digit_char(a % 10));
        assert(db.last() == digit_char(b % 10));
        lemma_digit_char_injective(a % 10, b % 10);
        assert(da.drop_last() =~= decimal(a / 10));
        assert(db.drop_last() =~= decimal(b / 10));
        lemma_decimal_injective(a / 10, b / 10);
    }
}

/// Ids issued for different counter values differ, so a generator whose
/// counter only grows never issues the same id twice.
pub proof fn lemma_ids_distinct(a: nat, b: nat)
    requires
        a != b,
    ensures
        id_text(a) != id_text(b),
{
    if id_text(a) == id_text(b) {
        let p = seq!['i', 'd', '-'];
        assert((p + decimal(a)).subrange(3, (p + decimal(a)).len() as int) =~= decimal(a));
        assert((p + decimal(b)).subrange(3, (p + decimal(b)).len() as int) =~= decimal(b));
        lemma_decimal_injective(a, b);
    }
}

/// Every call of `next_id` on a generator sees a larger counter than the
/// calls before it, so the ids it issues over a whole run, read at counter
/// values `counters` in call order, are pairwise distinct.
pub proof fn lemma_issued_ids_unique(counters: Seq<nat>)
    requires
        forall|i: int, j: int| 0 <= i < j < counters.len() ==> counters[i] < counters[j],
    ensures
        forall|i: int, j: int|
            0 <= i < counters.len() && 0 <= j < counters.len() && i != j
            ==> id_text(#[trigger] counters[i]) != id_text(#[trigger] counters[j]),
{
    assert forall|i: int, j: int|
        0 <= i < counters.len() && 0 <= j < counters.len() && i != j
        implies id_text(#[trigger] counters[i]) != id_text(#[trigger] counters[j]) by {
        if i < j {
            lemma_ids_distinct(counters[i], counters[j]);
        } else {
            lemma_ids_distinct(counters[j], counters[i]);
        }
    }
}

} // verus!

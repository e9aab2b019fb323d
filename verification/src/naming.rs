//! The mathematics of a naming space: how many names an alphabet and a length
//! give, and the order in which those names are enumerated.

use crate::text::push_char;
use vstd::arithmetic::power::{lemma0_pow, lemma1_pow, lemma_pow_increases, lemma_pow_positive, pow};
use vstd::prelude::*;

verus! {

/// Number of distinct names of `length` symbols over `symbols` distinct symbols.
pub open spec fn naming_space(symbols: nat, length: nat) -> nat {
    pow(symbols as int, length) as nat
}

/// `name` has `length` symbols, each taken from `alphabet`.
pub open spec fn is_name(name: Seq<char>, alphabet: Seq<char>, length: nat) -> bool {
    &&& name.len() == length
    &&& forall|i: int| 0 <= i < name.len() ==> alphabet.contains(#[trigger] name[i])
}

/// No two entries of `names` are equal.
pub open spec fn pairwise_distinct(names: Seq<Seq<char>>) -> bool {
    forall|i: int, j: int| 0 <= i < j < names.len() ==> names[i] != names[j]
}

/// The name at position `index` of the enumeration of all names of `length`
/// symbols: the last symbol changes with every step, the first one slowest.
pub open spec fn nth_name(alphabet: Seq<char>, length: nat, index: nat) -> Seq<char>
    decreases length,
{
    if length == 0 {
        Seq::empty()
    } else {
        nth_name(alphabet, (length - 1) as nat, index / alphabet.len()).push(
            alphabet[(index % alphabet.len()) as int],
        )
    }
}

pub proof fn lemma_space_unfold(symbols: nat, length: nat)
    ensures
        naming_space(symbols, 0) == 1,
        naming_space(symbols, length + 1) == naming_space(symbols, length) * symbols,
{
    reveal_with_fuel(pow, 2);
    if symbols > 0 {
        lemma_pow_positive(symbols as int, length);
        lemma_pow_positive(symbols as int, length + 1);
    } else {
        lemma0_pow(length + 1);
        if length > 0 {
            lemma0_pow(length);
        }
    }
    assert(pow(symbols as int, length + 1) == symbols * pow(symbols as int, length));
    assert(symbols * pow(symbols as int, length) == pow(symbols as int, length) * symbols)
        by (nonlinear_arith);
}

/// A naming space that is not empty has a symbol to draw from, unless its
/// names have no symbols at all.
pub proof fn lemma_nonempty_space(symbols: nat, length: nat)
    requires
        naming_space(symbols, length) > 0,
    ensures
        length > 0 ==> symbols > 0,
{
    if length > 0 && symbols == 0 {
        lemma0_pow(length);
    }
}

/// Every entry of the enumeration is a name over the alphabet.
pub proof fn lemma_nth_name_is_name(alphabet: Seq<char>, length: nat, index: nat)
    requires
        length > 0 ==> alphabet.len() > 0,
    ensures
        is_name(nth_name(alphabet, length, index), alphabet, length),
    decreases length,
{
    if length > 0 {
        let head = nth_name(alphabet, (length - 1) as nat, index / alphabet.len());
        let last = alphabet[(index % alphabet.len()) as int];
        lemma_nth_name_is_name(alphabet, (length - 1) as nat, index / alphabet.len());
        let digit = (index % alphabet.len()) as int;
        assert(0 <= digit && digit < alphabet.len());
        assert(alphabet.contains(last));
        assert forall|i: int| 0 <= i < head.push(last).len() implies alphabet.contains(
            #[trigger] head.push(last)[i],
        ) by {
            if i < head.len() {
                assert(head.push(last)[i] == head[i]);
            }
        }
    }
}

/// Below the size of the naming space, the enumeration gives no name twice,
/// provided that no symbol occurs twice in the alphabet.
pub proof fn lemma_nth_name_injective(alphabet: Seq<char>, length: nat, i: nat, j: nat)
    requires
        alphabet.no_duplicates(),
        i < naming_space(alphabet.len(), length),
        j < naming_space(alphabet.len(), length),
        nth_name(alphabet, length, i) == nth_name(alphabet, length, j),
    ensures
        i == j,
    decreases length,
{
    let a = alphabet.len();
    lemma_space_unfold(a, 0);
    if length > 0 {
        let shorter = (length - 1) as nat;
        lemma_space_unfold(a, shorter);
        if a > 0 {
            let head_i = nth_name(alphabet, shorter, i / a);
            let head_j = nth_name(alphabet, shorter, j / a);
            let last_i = alphabet[(i % a) as int];
            let last_j = alphabet[(j % a) as int];
            assert(head_i.push(last_i).drop_last() == head_i);
            assert(head_j.push(last_j).drop_last() == head_j);
            assert(head_i.push(last_i).last() == last_i);
            assert(head_j.push(last_j).last() == last_j);
            assert(i % a == j % a);
            let space = naming_space(a, shorter);
            assert(i / a < space && j / a < space) by (nonlinear_arith)
                requires
                    i < space * a,
                    j < space * a,
                    a > 0,
            ;
            lemma_nth_name_injective(alphabet, shorter, i / a, j / a);
            assert(i == j) by (nonlinear_arith)
                requires
                    i / a == j / a,
                    i % a == j % a,
                    a > 0,
            ;
        }
    }
}

/// `index` is the place of the first name of the enumeration that is not
/// in `taken`.
pub open spec fn is_first_unused(
    taken: Seq<Seq<char>>,
    alphabet: Seq<char>,
    length: nat,
    index: nat,
) -> bool {
    &&& !taken.contains(nth_name(alphabet, length, index))
    &&& forall|k: nat| k < index ==> taken.contains(#[trigger] nth_name(alphabet, length, k))
}

/// Pigeonhole: a list that holds the first `count` names of the enumeration
/// has at least `count` entries.
pub proof fn lemma_first_names_need_room(
    taken: Seq<Seq<char>>,
    alphabet: Seq<char>,
    length: nat,
    count: nat,
)
    requires
        alphabet.no_duplicates(),
        count <= naming_space(alphabet.len(), length),
        forall|k: nat| k < count ==> taken.contains(#[trigger] nth_name(alphabet, length, k)),
    ensures
        count <= taken.len(),
    decreases count,
{
    if count > 0 {
        let top = (count - 1) as nat;
        let last = nth_name(alphabet, length, top);
        assert(taken.contains(last));
        let at = choose|at: int| 0 <= at < taken.len() && taken[at] == last;
        let rest = taken.remove(at);
        assert forall|k: nat| k < top implies rest.contains(
            #[trigger] nth_name(alphabet, length, k),
        ) by {
            let name = nth_name(alphabet, length, k);
            assert(taken.contains(name));
            let pos = choose|pos: int| 0 <= pos < taken.len() && taken[pos] == name;
            if name == last {
                lemma_nth_name_injective(alphabet, length, k, top);
            }
            if pos < at {
                assert(rest[pos] == name);
            } else {
                assert(rest[pos - 1] == name);
            }
        }
        lemma_first_names_need_room(rest, alphabet, length, top);
    }
}

/// The last `count` symbols of the name at `index`, the last one first.
pub open spec fn low_symbols(alphabet: Seq<char>, count: nat, index: nat) -> Seq<char>
    decreases count,
{
    if count == 0 {
        Seq::empty()
    } else {
        seq![alphabet[(index % alphabet.len()) as int]] + low_symbols(
            alphabet,
            (count - 1) as nat,
            index / alphabet.len(),
        )
    }
}

/// A name is its symbols from last to first, read backwards.
pub proof fn lemma_nth_name_reversed(alphabet: Seq<char>, length: nat, index: nat)
    requires
        length > 0 ==> alphabet.len() > 0,
    ensures
        low_symbols(alphabet, length, index).len() == length,
        nth_name(alphabet, length, index) == low_symbols(alphabet, length, index).reverse(),
    decreases length,
{
    if length > 0 {
        let shorter = (length - 1) as nat;
        let rest = index / alphabet.len();
        lemma_nth_name_reversed(alphabet, shorter, rest);
        let last = alphabet[(index % alphabet.len()) as int];
        let low = low_symbols(alphabet, shorter, rest);
        assert((seq![last] + low).reverse() =~= low.reverse().push(last));
    }
}

/// The name at position `index` of the enumeration.
pub fn name_at(symbols: &[char], length: usize, index: usize) -> (name: String)
    requires
        length > 0 ==> symbols@.len() > 0,
    ensures
        name@ == nth_name(symbols@, length as nat, index as nat),
{
    let mut backwards: Vec<char> = Vec::new();
    let mut rest = index;
    let mut done: usize = 0;
    while done < length
        invariant
            done <= length,
            length > 0 ==> symbols@.len() > 0,
            backwards@.len() == done,
            low_symbols(symbols@, length as nat, index as nat) == backwards@ + low_symbols(
                symbols@,
                (length - done) as nat,
                rest as nat,
            ),
        decreases length - done,
    {
        let ghost before = backwards@;
        let ghost tail = low_symbols(
            symbols@,
            (length - done - 1) as nat,
            (rest / symbols.len()) as nat,
        );
        let symbol = symbols[rest % symbols.len()];
        backwards.push(symbol);
        assert(before + (seq![symbol] + tail) =~= backwards@ + tail);
        rest = rest / symbols.len();
        done = done + 1;
    }
    assert(backwards@ =~= low_symbols(symbols@, length as nat, index as nat));
    let mut name = String::new();
    let mut left = length;
    while left > 0
        invariant
            left <= length,
            backwards@.len() == length,
            name@ == backwards@.subrange(left as int, length as int).reverse(),
        decreases left,
    {
        left = left - 1;
        let ghost before = name@;
        push_char(&mut name, backwards[left]);
        assert(name@ =~= backwards@.subrange(left as int, length as int).reverse());
    }
    proof {
        assert(backwards@.subrange(0, length as int) =~= backwards@);
        lemma_nth_name_reversed(symbols@, length as nat, index as nat);
    }
    name
}

/// The naming space when it is at most `bound`, nothing when it is larger.
pub fn space_up_to(symbols: usize, length: usize, bound: u128) -> (space: Option<u128>)
    ensures
        match space {
            Some(s) => s == naming_space(symbols as nat, length as nat) && s <= bound,
            None => naming_space(symbols as nat, length as nat) > bound,
        },
{
    if length == 0 {
        proof {
            lemma_space_unfold(symbols as nat, 0);
        }
        return if bound >= 1 { Some(1) } else { None };
    }
    if symbols == 0 {
        proof {
            lemma0_pow(length as nat);
        }
        return Some(0);
    }
    if symbols == 1 {
        proof {
            lemma1_pow(length as nat);
        }
        return if bound >= 1 { Some(1) } else { None };
    }
    if bound == 0 {
        proof {
            lemma_pow_positive(symbols as int, length as nat);
        }
        return None;
    }
    let base: u128 = symbols as u128;
    let mut product: u128 = 1;
    let mut exponent: usize = 0;
    proof {
        lemma_space_unfold(symbols as nat, 0);
    }
    while exponent < length
        invariant
            exponent <= length,
            base == symbols,
            base >= 2,
            product == naming_space(symbols as nat, exponent as nat),
            product <= bound,
        decreases length - exponent,
    {
        proof {
            lemma_space_unfold(symbols as nat, exponent as nat);
        }
        if product > bound / base {
            proof {
                assert(product * base > bound) by (nonlinear_arith)
                    requires
                        product > bound / base,
                        base >= 2,
                ;
                lemma_pow_increases(symbols as nat, (exponent + 1) as nat, length as nat);
                lemma_pow_positive(symbols as int, (exponent + 1) as nat);
                lemma_pow_positive(symbols as int, length as nat);
                assert(naming_space(symbols as nat, (exponent + 1) as nat) == product * base);
            }
            return None;
        }
        proof {
            assert(product * base <= bound) by (nonlinear_arith)
                requires
                    product <= bound / base,
                    base >= 2,
            ;
        }
        product = product * base;
        exponent = exponent + 1;
    }
    Some(product)
}

} // verus!

//! Name generation: the capacity check, the choice between the two
//! strategies, and the strategies themselves.

use crate::char_set::CharSet;
use crate::cli::{ErrorHandlingMode, NameGenerationStrategy};
use crate::naming::{
    is_first_unused, is_name, lemma_first_names_need_room, lemma_nonempty_space,
    lemma_nth_name_injective, lemma_nth_name_is_name, name_at, naming_space, nth_name,
    pairwise_distinct, space_up_to,
};
use crate::text::{
    decimal_text, push_char, sanitize, sanitized, symbols_of, texts, usize_text,
    windows_rules_by_default,
};
use crate::util::{ExtensionMode, OnErrorResponse};
use itertools::Itertools;
use rand::rngs::ThreadRng;
use rand::Rng;
use vstd::pervasive::arbitrary;
use vstd::prelude::*;
use vstd::std_specs::convert::FromSpecImpl;
use vstd::string::StringExecFns;

verus! {

/// The largest number of files that one request may name.
pub const FILE_COUNT_MAX: usize = 1048576;

/// The largest naming space that is enumerated in full.
pub const PERMUTATION_COUNT_MAX: usize = 16777216;

/// Names are drawn one by one while the files fill less than one part in
/// this many of the naming space; from there on the space is enumerated.
pub const STRATEGY_RATIO_DIVISOR: usize = 10;

/// How often one name is drawn again after a collision before the first
/// free name of the enumeration is taken instead. No run comes near it; it
/// is what makes the search for a free name end on every sequence of draws.
pub const RETRY_LIMIT: u64 = 0xffff_ffff_ffff_ffff;

/// Why a request for names is refused.
#[derive(Debug, Clone, PartialEq, Eq)]
pub enum NameGenerationError {
    /// There are fewer names than files.
    InsufficientNamingSpace { needs: usize, space: usize },
    /// There are more files than one request may name.
    TooManyFiles { count: usize },
    /// The naming space is too large to be enumerated.
    TooManyPermutations { char_set: CharSet, length: usize },
}

impl NameGenerationError {
    /// The refusal as it is shown to the user.
    pub open spec fn text(&self) -> Seq<char> {
        match self {
            NameGenerationError::InsufficientNamingSpace { needs, space } => {
                "This combination of character set and length cannot uniquely cover every file.\nThere are "@
                    + decimal_text(*needs as nat) + " files but only "@ + decimal_text(
                    *space as nat,
                ) + " unique names available."@
            },
            NameGenerationError::TooManyFiles { count } => {
                "Cannot process "@ + decimal_text(*count as nat)
                    + " files at once. Currently the limit is "@ + decimal_text(
                    FILE_COUNT_MAX as nat,
                ) + "."@
            },
            NameGenerationError::TooManyPermutations { char_set, length } => {
                "Cannot enumerate all permutations with the character set "@ + char_set.text()
                    + " and length "@ + decimal_text(*length as nat) + "."@
            },
        }
    }

    /// The refusal as it is shown to the user.
    pub fn to_string(&self) -> (text: String)
        ensures
            text@ == self.text(),
    {
        match self {
            NameGenerationError::InsufficientNamingSpace { needs, space } => {
                let mut text =
                    "This combination of character set and length cannot uniquely cover every file.\nThere are ".to_owned();
                text.append(usize_text(*needs).as_str());
                text.append(" files but only ");
                text.append(usize_text(*space).as_str());
                text.append(" unique names available.");
                text
            },
            NameGenerationError::TooManyFiles { count } => {
                let mut text = "Cannot process ".to_owned();
                text.append(usize_text(*count).as_str());
                text.append(" files at once. Currently the limit is ");
                text.append(usize_text(FILE_COUNT_MAX).as_str());
                text.append(".");
                text
            },
            NameGenerationError::TooManyPermutations { char_set, length } => {
                let mut text =
                    "Cannot enumerate all permutations with the character set ".to_owned();
                text.append(char_set.to_string().as_str());
                text.append(" and length ");
                text.append(usize_text(*length).as_str());
                text.append(".");
                text
            },
        }
    }
}

impl From<NameGenerationError> for String {
    /// The refusal as it is shown to the user.
    fn from(err: NameGenerationError) -> (text: String)
        ensures
            text@ == err.text(),
    {
        err.to_string()
    }
}

impl FromSpecImpl<NameGenerationError> for String {
    open spec fn obeys_from_spec() -> bool {
        false
    }

    open spec fn from_spec(err: NameGenerationError) -> String {
        arbitrary()
    }
}

#[verifier::external_type_specification]
#[verifier::external_body]
pub struct ExThreadRng(ThreadRng);

/// `rand::thread_rng`: a handle to the generator of the current thread,
/// which the operating system seeds when the thread first asks for it. Which
/// numbers it will give is not known, so nothing is stated of it.
#[verifier::external_body]
fn thread_generator() -> ThreadRng {
    rand::thread_rng()
}

/// `Rng::gen_range` on `0..bound`: some index below `bound`. The range must
/// not be empty. Which index comes back differs from call to call.
#[verifier::external_body]
fn random_index(rng: &mut ThreadRng, bound: usize) -> (index: usize)
    requires
        bound > 0,
    ensures
        index < bound,
{
    rng.gen_range(0..bound)
}

/// `Itertools::multi_cartesian_product` over `length` copies of `symbols`,
/// each product collected into a string: every name of `length` symbols, in
/// the order of the enumeration (the last symbol changes with every step).
/// For `length` 0 that is the one empty name, for no symbols and a positive
/// `length` no name at all.
#[verifier::external_body]
fn all_names(symbols: &[char], length: usize) -> (names: Vec<String>)
    requires
        naming_space(symbols@.len(), length as nat) <= usize::MAX,
    ensures
        names@.len() == naming_space(symbols@.len(), length as nat),
        forall|index: int|
            0 <= index < names@.len() ==> (#[trigger] names@[index])@ == nth_name(
                symbols@,
                length as nat,
                index as nat,
            ),
{
    std::iter::repeat(symbols)
        .take(length)
        .multi_cartesian_product()
        .map(|char_seq| char_seq.into_iter().cloned().collect::<String>())
        .collect::<Vec<_>>()
}

/// The names of an assignment, in order.
pub open spec fn names_of<P>(pairs: Seq<(&P, String)>) -> Seq<Seq<char>> {
    Seq::new(pairs.len(), |k: int| pairs[k].1@)
}

/// `pairs` gives each of `files` a name, in the order of `files`.
pub open spec fn covers_files<P>(pairs: Seq<(&P, String)>, files: Seq<P>) -> bool {
    &&& pairs.len() == files.len()
    &&& forall|k: int| 0 <= k < pairs.len() ==> *(#[trigger] pairs[k]).0 == files[k]
}

/// Every name of `pairs` has `length` symbols of `alphabet`.
pub open spec fn names_well_formed<P>(
    pairs: Seq<(&P, String)>,
    alphabet: Seq<char>,
    length: nat,
) -> bool {
    forall|k: int| 0 <= k < pairs.len() ==> is_name(#[trigger] names_of(pairs)[k], alphabet, length)
}

/// What a generator owes: every file has its name, in input order, every
/// name is over the alphabet, and no name is given twice.
pub open spec fn is_assignment<P>(
    pairs: Seq<(&P, String)>,
    files: Seq<P>,
    alphabet: Seq<char>,
    length: nat,
) -> bool {
    &&& covers_files(pairs, files)
    &&& names_well_formed(pairs, alphabet, length)
    &&& pairwise_distinct(names_of(pairs))
}

/// A name of `length` symbols, each drawn at random from `symbols`.
fn random_name(rng: &mut ThreadRng, symbols: &[char], length: usize) -> (name: String)
    requires
        length > 0 ==> symbols@.len() > 0,
    ensures
        is_name(name@, symbols@, length as nat),
{
    let mut name = String::new();
    let mut drawn: usize = 0;
    while drawn < length
        invariant
            drawn <= length,
            length > 0 ==> symbols@.len() > 0,
            is_name(name@, symbols@, drawn as nat),
        decreases length - drawn,
    {
        let at = random_index(rng, symbols.len());
        let ghost before = name@;
        push_char(&mut name, symbols[at]);
        proof {
            assert(symbols@.contains(symbols@[at as int]));
            assert forall|i: int| 0 <= i < name@.len() implies symbols@.contains(
                #[trigger] name@[i],
            ) by {
                if i < before.len() {
                    assert(name@[i] == before[i]);
                }
            }
        }
        drawn = drawn + 1;
    }
    name
}

/// Whether `name` is already the name of one of `pairs`.
fn is_taken<P>(pairs: &Vec<(&P, String)>, name: &String) -> (taken: bool)
    ensures
        taken == names_of(pairs@).contains(name@),
{
    let mut k: usize = 0;
    while k < pairs.len()
        invariant
            k <= pairs.len(),
            forall|j: int| 0 <= j < k ==> names_of(pairs@)[j] != name@,
        decreases pairs.len() - k,
    {
        if pairs[k].1 == *name {
            assert(names_of(pairs@)[k as int] == name@);
            return true;
        }
        k = k + 1;
    }
    false
}

/// The first name of the enumeration that none of `pairs` has.
pub fn first_unused_name<P>(symbols: &[char], length: usize, pairs: &Vec<(&P, String)>) -> (name:
    String)
    requires
        symbols@.no_duplicates(),
        pairs@.len() < naming_space(symbols@.len(), length as nat),
    ensures
        is_name(name@, symbols@, length as nat),
        !names_of(pairs@).contains(name@),
        exists|index: nat|
            index <= pairs@.len() && #[trigger] is_first_unused(
                names_of(pairs@),
                symbols@,
                length as nat,
                index,
            ) && name@ == nth_name(symbols@, length as nat, index),
{
    proof {
        lemma_nonempty_space(symbols@.len(), length as nat);
    }
    let mut index: usize = 0;
    while index < pairs.len()
        invariant
            index <= pairs.len(),
            length > 0 ==> symbols@.len() > 0,
            forall|k: nat|
                k < index ==> names_of(pairs@).contains(
                    #[trigger] nth_name(symbols@, length as nat, k),
                ),
        decreases pairs.len() - index,
    {
        let candidate = name_at(symbols, length, index);
        if !is_taken(pairs, &candidate) {
            proof {
                lemma_nth_name_is_name(symbols@, length as nat, index as nat);
                assert(is_first_unused(names_of(pairs@), symbols@, length as nat, index as nat));
            }
            return candidate;
        }
        index = index + 1;
    }
    let candidate = name_at(symbols, length, index);
    proof {
        lemma_nth_name_is_name(symbols@, length as nat, index as nat);
        if names_of(pairs@).contains(candidate@) {
            lemma_first_names_need_room(
                names_of(pairs@),
                symbols@,
                length as nat,
                (index + 1) as nat,
            );
        }
        assert(is_first_unused(names_of(pairs@), symbols@, length as nat, index as nat));
    }
    candidate
}

/// A name that none of `pairs` has: the first random draw that is free or,
/// should every draw up to the retry limit collide, the first free name of
/// the enumeration.
fn fresh_name<P>(
    rng: &mut ThreadRng,
    symbols: &[char],
    length: usize,
    pairs: &Vec<(&P, String)>,
) -> (name: String)
    requires
        symbols@.no_duplicates(),
        pairs@.len() < naming_space(symbols@.len(), length as nat),
    ensures
        is_name(name@, symbols@, length as nat),
        !names_of(pairs@).contains(name@),
{
    proof {
        lemma_nonempty_space(symbols@.len(), length as nat);
    }
    let mut attempts: u64 = 0;
    while attempts < RETRY_LIMIT
        invariant
            length > 0 ==> symbols@.len() > 0,
        decreases RETRY_LIMIT - attempts,
    {
        let candidate = random_name(rng, symbols, length);
        if !is_taken(pairs, &candidate) {
            return candidate;
        }
        attempts = attempts + 1;
    }
    first_unused_name(symbols, length, pairs)
}

/// Whether the files fill so little of the naming space that drawing names
/// one by one is the cheaper way: their share is under one part in
/// `STRATEGY_RATIO_DIVISOR`.
pub open spec fn is_sparse(file_count: nat, space: nat) -> bool {
    file_count * STRATEGY_RATIO_DIVISOR < space
}

/// The strategy for a request: the forced one, if any; else drawing on
/// demand where the files are sparse in the naming space, and enumerating
/// where they are not.
pub open spec fn chosen_strategy(
    file_count: nat,
    space: nat,
    forced: Option<NameGenerationStrategy>,
) -> NameGenerationStrategy {
    match forced {
        Some(strategy) => strategy,
        None => if is_sparse(file_count, space) {
            NameGenerationStrategy::OnDemand
        } else {
            NameGenerationStrategy::Match
        },
    }
}

/// Two requests whose files fill the same share of their naming spaces get
/// the same strategy when none is forced: the choice depends on the ratio of
/// files to names alone.
pub proof fn lemma_same_ratio_same_strategy(
    file_count: nat,
    space: nat,
    other_file_count: nat,
    other_space: nat,
)
    requires
        space > 0,
        other_space > 0,
        file_count * other_space == other_file_count * space,
    ensures
        chosen_strategy(file_count, space, None) == chosen_strategy(
            other_file_count,
            other_space,
            None,
        ),
{
    let d = STRATEGY_RATIO_DIVISOR as int;
    assert((file_count * d < space) <==> (other_file_count * d < other_space))
        by (nonlinear_arith)
        requires
            space > 0,
            other_space > 0,
            d > 0,
            file_count * other_space == other_file_count * space,
    ;
}

/// A forced strategy is the one chosen, whatever the request.
pub proof fn lemma_forced_strategy_is_chosen(
    file_count: nat,
    space: nat,
    strategy: NameGenerationStrategy,
)
    ensures
        chosen_strategy(file_count, space, Some(strategy)) == strategy,
{
}

/// Chooses the strategy for `file_count` files and names of `length` symbols
/// out of `symbols`.
pub fn select_strategy(
    file_count: usize,
    symbols: usize,
    length: usize,
    force_strategy: Option<NameGenerationStrategy>,
) -> (strategy: NameGenerationStrategy)
    ensures
        strategy == chosen_strategy(
            file_count as nat,
            naming_space(symbols as nat, length as nat),
            force_strategy,
        ),
{
    match force_strategy {
        Some(strategy) => strategy,
        None => {
            let dense_up_to: u128 = (file_count as u128) * (STRATEGY_RATIO_DIVISOR as u128);
            if space_up_to(symbols, length, dense_up_to).is_none() {
                NameGenerationStrategy::OnDemand
            } else {
                NameGenerationStrategy::Match
            }
        },
    }
}

/// Why a request is refused, if it is: too few names for the files comes
/// first, then too many files, then, where the space would be enumerated, a
/// space too large for that.
pub open spec fn refusal(
    file_count: nat,
    chars: CharSet,
    length: usize,
    forced: Option<NameGenerationStrategy>,
) -> Option<NameGenerationError> {
    let space = naming_space(chars.symbols().len(), length as nat);
    if file_count > space {
        Some(
            NameGenerationError::InsufficientNamingSpace {
                needs: file_count as usize,
                space: space as usize,
            },
        )
    } else if file_count > FILE_COUNT_MAX {
        Some(NameGenerationError::TooManyFiles { count: file_count as usize })
    } else if chosen_strategy(file_count, space, forced) == NameGenerationStrategy::Match && space
        > PERMUTATION_COUNT_MAX {
        Some(NameGenerationError::TooManyPermutations { char_set: chars, length })
    } else {
        None
    }
}

/// Gives each of `files` a random name of `length` symbols of `chars`, no
/// name twice, or says why that is refused. Nothing is generated for a
/// request that is refused.
pub fn generate_random_names<'a, P>(
    files: &'a [P],
    chars: CharSet,
    length: usize,
    force_strategy: Option<NameGenerationStrategy>,
) -> (res: Result<Vec<(&'a P, String)>, NameGenerationError>)
    ensures
        match res {
            Ok(pairs) => {
                &&& refusal(files@.len(), chars, length, force_strategy) is None
                &&& covers_files(pairs@, files@)
                &&& names_well_formed(pairs@, chars.symbols(), length as nat)
                &&& pairwise_distinct(names_of(pairs@))
            },
            Err(reason) => refusal(files@.len(), chars, length, force_strategy) == Some(reason),
        },
        files@.len() > naming_space(chars.symbols().len(), length as nat) ==> res == Err::<
            Vec<(&'a P, String)>,
            NameGenerationError,
        >(
            NameGenerationError::InsufficientNamingSpace {
                needs: files.len(),
                space: naming_space(chars.symbols().len(), length as nat) as usize,
            },
        ),
{
    let file_count = files.len();
    let symbol_count = chars.len();
    match space_up_to(symbol_count, length, file_count as u128) {
        Some(space) => {
            if (file_count as u128) > space {
                return Err(
                    NameGenerationError::InsufficientNamingSpace {
                        needs: file_count,
                        space: space as usize,
                    },
                );
            }
        },
        None => {},
    }
    if file_count > FILE_COUNT_MAX {
        return Err(NameGenerationError::TooManyFiles { count: file_count });
    }
    match select_strategy(file_count, symbol_count, length, force_strategy) {
        NameGenerationStrategy::OnDemand => generate_on_demand(files, chars, length),
        NameGenerationStrategy::Match => generate_then_match(files, chars, length),
    }
}

/// Giving the next file a name over the alphabet that no file has yet
/// keeps an assignment an assignment.
proof fn lemma_next_name_keeps_assignment<P>(
    before: Seq<(&P, String)>,
    pair: (&P, String),
    files: Seq<P>,
    alphabet: Seq<char>,
    length: nat,
)
    requires
        before.len() < files.len(),
        is_assignment(before, files.take(before.len() as int), alphabet, length),
        *pair.0 == files[before.len() as int],
        is_name(pair.1@, alphabet, length),
        !names_of(before).contains(pair.1@),
    ensures
        is_assignment(before.push(pair), files.take(before.len() as int + 1), alphabet, length),
{
    let after = before.push(pair);
    assert forall|k: int| 0 <= k < after.len() implies names_of(after)[k] == (if k < before.len() {
        names_of(before)[k]
    } else {
        pair.1@
    }) by {}
    assert forall|k: int| 0 <= k < after.len() implies *(#[trigger] after[k]).0 == files.take(
        before.len() as int + 1,
    )[k] by {
        if k < before.len() {
            assert(after[k] == before[k]);
            assert(*before[k].0 == files.take(before.len() as int)[k]);
        }
    }
    assert forall|k: int| 0 <= k < after.len() implies is_name(
        #[trigger] names_of(after)[k],
        alphabet,
        length,
    ) by {
        if k < before.len() {
            assert(is_name(names_of(before)[k], alphabet, length));
        }
    }
    assert forall|i: int, j: int| 0 <= i < j < after.len() implies names_of(after)[i] != names_of(
        after,
    )[j] by {
        if j < before.len() {
            assert(names_of(before)[i] != names_of(before)[j]);
        } else {
            assert(names_of(before).contains(names_of(before)[i]));
        }
    }
}

/// Names each file on its own: a name is drawn at random and drawn again as
/// long as an earlier file already has it. A name is drawn again
/// `RETRY_LIMIT` times at most; should every one of those draws collide,
/// the file gets the first name of the enumeration that no file has yet.
pub fn generate_on_demand<'a, P>(files: &'a [P], chars: CharSet, length: usize) -> (res: Result<
    Vec<(&'a P, String)>,
    NameGenerationError,
>)
    requires
        files@.len() <= naming_space(chars.symbols().len(), length as nat),
    ensures
        res matches Ok(pairs) && is_assignment(pairs@, files@, chars.symbols(), length as nat),
{
    let symbols = chars.get_char_set();
    let mut rng = thread_generator();
    let mut name_map: Vec<(&'a P, String)> = Vec::new();
    let mut done: usize = 0;
    while done < files.len()
        invariant
            done <= files@.len(),
            files@.len() <= naming_space(symbols@.len(), length as nat),
            symbols@.no_duplicates(),
            is_assignment(name_map@, files@.take(done as int), symbols@, length as nat),
        decreases files.len() - done,
    {
        let name = fresh_name(&mut rng, symbols, length, &name_map);
        let ghost before = name_map@;
        name_map.push((&files[done], name));
        proof {
            lemma_next_name_keeps_assignment(
                before,
                name_map@[done as int],
                files@,
                symbols@,
                length as nat,
            );
        }
        done = done + 1;
    }
    assert(files@.take(done as int) =~= files@);
    Ok(name_map)
}

/// Names the files from the full list of names: each file takes one name at
/// random out of those that are left.
pub fn generate_then_match<'a, P>(files: &'a [P], chars: CharSet, length: usize) -> (res: Result<
    Vec<(&'a P, String)>,
    NameGenerationError,
>)
    requires
        files@.len() <= naming_space(chars.symbols().len(), length as nat),
    ensures
        match res {
            Ok(pairs) => {
                &&& naming_space(chars.symbols().len(), length as nat) <= PERMUTATION_COUNT_MAX
                &&& is_assignment(pairs@, files@, chars.symbols(), length as nat)
            },
            Err(reason) => {
                &&& naming_space(chars.symbols().len(), length as nat) > PERMUTATION_COUNT_MAX
                &&& reason == (NameGenerationError::TooManyPermutations { char_set: chars, length })
            },
        },
{
    if space_up_to(chars.len(), length, PERMUTATION_COUNT_MAX as u128).is_none() {
        return Err(NameGenerationError::TooManyPermutations { char_set: chars, length });
    }
    let symbols = chars.get_char_set();
    let mut candidates = all_names(symbols, length);
    proof {
        let all = texts(candidates@);
        assert forall|i: int, j: int| 0 <= i < j < all.len() implies all[i] != all[j] by {
            assert(candidates@[i]@ == nth_name(symbols@, length as nat, i as nat));
            assert(candidates@[j]@ == nth_name(symbols@, length as nat, j as nat));
            if all[i] == all[j] {
                lemma_nth_name_injective(symbols@, length as nat, i as nat, j as nat);
            }
        }
        assert forall|k: int| 0 <= k < all.len() implies is_name(
            #[trigger] all[k],
            symbols@,
            length as nat,
        ) by {
            assert(candidates@[k]@ == nth_name(symbols@, length as nat, k as nat));
            lemma_nonempty_space(symbols@.len(), length as nat);
            lemma_nth_name_is_name(symbols@, length as nat, k as nat);
        }
    }
    let mut rng = thread_generator();
    let mut name_map: Vec<(&'a P, String)> = Vec::new();
    let mut done: usize = 0;
    while done < files.len()
        invariant
            done <= files@.len(),
            candidates@.len() + done >= files@.len(),
            pairwise_distinct(texts(candidates@)),
            forall|k: int|
                0 <= k < candidates@.len() ==> is_name(
                    #[trigger] texts(candidates@)[k],
                    symbols@,
                    length as nat,
                ),
            forall|i: int, k: int|
                0 <= i < name_map@.len() && 0 <= k < candidates@.len() ==> #[trigger] names_of(
                    name_map@,
                )[i] != #[trigger] texts(candidates@)[k],
            is_assignment(name_map@, files@.take(done as int), symbols@, length as nat),
        decreases files.len() - done,
    {
        let picked = random_index(&mut rng, candidates.len());
        let ghost left = candidates@;
        let ghost before = name_map@;
        let name = candidates.swap_remove(picked);
        name_map.push((&files[done], name));
        proof {
            assert(name@ == texts(left)[picked as int]);
            assert forall|k: int| 0 <= k < candidates@.len() implies #[trigger] texts(
                candidates@,
            )[k] == texts(left)[if k == picked {
                left.len() - 1
            } else {
                k
            }] by {}
            assert(is_name(texts(left)[picked as int], symbols@, length as nat));
            if names_of(before).contains(name@) {
                let i = choose|i: int| 0 <= i < before.len() && names_of(before)[i] == name@;
                assert(names_of(before)[i] != texts(left)[picked as int]);
            }
            lemma_next_name_keeps_assignment(
                before,
                name_map@[done as int],
                files@,
                symbols@,
                length as nat,
            );
            assert forall|i: int, k: int|
                0 <= i < name_map@.len() && 0 <= k < candidates@.len() implies #[trigger] names_of(
                name_map@,
            )[i] != #[trigger] texts(candidates@)[k] by {
                if i < before.len() {
                    assert(names_of(name_map@)[i] == names_of(before)[i]);
                }
            }
        }
        done = done + 1;
    }
    assert(files@.take(done as int) =~= files@);
    Ok(name_map)
}

/// What the rules on extensions read of a file's path.
#[derive(Debug, Clone, PartialEq, Eq)]
pub struct PathText {
    /// The path as it is shown to the user.
    pub shown: String,
    /// The last component of the path, where it is valid UTF-8.
    pub file_name: Option<String>,
    /// What follows the last dot of the last component, if there is such a
    /// part: the text of it where it is valid UTF-8, nothing where it is not.
    pub extension: Option<Option<String>>,
}

/// Why the final name of a file cannot be made.
#[derive(Debug, Clone, PartialEq, Eq)]
pub enum NameFinaliseError {
    /// The part of the path that the extension is read from is no text.
    NotUtf8 { path: String },
    /// The user has ended the run.
    UserHalt,
}

impl NameFinaliseError {
    /// The error as it is shown to the user.
    pub open spec fn text(&self) -> Seq<char> {
        match self {
            NameFinaliseError::NotUtf8 { path } => path@ + " is not UTF8"@,
            NameFinaliseError::UserHalt => "user halt"@,
        }
    }

    /// The error as it is shown to the user.
    pub fn to_string(&self) -> (text: String)
        ensures
            text@ == self.text(),
    {
        match self {
            NameFinaliseError::NotUtf8 { path } => {
                let mut text = path.clone();
                text.append(" is not UTF8");
                text
            },
            NameFinaliseError::UserHalt => "user halt".to_owned(),
        }
    }
}

impl From<NameFinaliseError> for String {
    /// The error as it is shown to the user.
    fn from(err: NameFinaliseError) -> (text: String)
        ensures
            text@ == err.text(),
    {
        err.to_string()
    }
}

impl FromSpecImpl<NameFinaliseError> for String {
    open spec fn obeys_from_spec() -> bool {
        false
    }

    open spec fn from_spec(err: NameFinaliseError) -> String {
        arbitrary()
    }
}

/// What follows the first dot of `name`, if `name` has a dot.
pub open spec fn after_first_dot(name: Seq<char>) -> Option<Seq<char>>
    decreases name.len(),
{
    if name.len() == 0 {
        None
    } else if name[0] == '.' {
        Some(name.skip(1))
    } else {
        after_first_dot(name.skip(1))
    }
}

/// Every extension of a file name: what follows its first dot, where a dot
/// that starts the name does not count.
pub open spec fn all_extensions(name: Seq<char>) -> Option<Seq<char>> {
    if name.len() > 0 && name[0] == '.' {
        after_first_dot(name.skip(1))
    } else {
        after_first_dot(name)
    }
}

/// The extension that a file gets under `ext_mode`, or why it gets none.
pub open spec fn extension_of(path: PathText, ext_mode: ExtensionMode) -> Result<
    Option<Seq<char>>,
    NameFinaliseError,
> {
    match ext_mode {
        ExtensionMode::KeepAll => match path.file_name {
            Some(name) => Ok(all_extensions(name@)),
            None => Err(NameFinaliseError::NotUtf8 { path: path.shown }),
        },
        ExtensionMode::KeepLast => match path.extension {
            Some(Some(ext)) => Ok(Some(ext@)),
            Some(None) => Err(NameFinaliseError::NotUtf8 { path: path.shown }),
            None => Ok(None),
        },
        ExtensionMode::Static(ext) => Ok(Some(ext@)),
        ExtensionMode::Discard => Ok(None),
    }
}

/// Every extension of the file name `name`.
pub fn keep_all_extensions(name: &str) -> (ext: Option<String>)
    ensures
        match ext {
            Some(text) => all_extensions(name@) == Some(text@),
            None => all_extensions(name@) is None,
        },
{
    let symbols = symbols_of(name);
    let mut at: usize = if symbols.len() > 0 && symbols[0] == '.' {
        1
    } else {
        0
    };
    let ghost body = symbols@.skip(at as int);
    assert(symbols@.skip(0) =~= symbols@);
    assert(all_extensions(name@) == after_first_dot(body));
    let ghost start = at;
    while at < symbols.len() && symbols[at] != '.'
        invariant
            start <= at <= symbols@.len(),
            after_first_dot(body) == after_first_dot(symbols@.skip(at as int)),
        decreases symbols.len() - at,
    {
        assert(symbols@.skip(at as int).skip(1) =~= symbols@.skip(at + 1));
        at = at + 1;
    }
    if at == symbols.len() {
        return None;
    }
    at = at + 1;
    let ghost rest = symbols@.skip(at as int);
    assert(symbols@.skip(at - 1).skip(1) =~= rest);
    let mut ext = String::new();
    let ghost from = at;
    while at < symbols.len()
        invariant
            from <= at <= symbols@.len(),
            ext@ == symbols@.subrange(from as int, at as int),
        decreases symbols.len() - at,
    {
        push_char(&mut ext, symbols[at]);
        at = at + 1;
        assert(ext@ =~= symbols@.subrange(from as int, at as int));
    }
    assert(ext@ =~= rest);
    Some(ext)
}

/// The extension that the file at `path` gets under `ext_mode`.
pub fn get_extension(path: &PathText, ext_mode: &ExtensionMode) -> (res: Result<
    Option<String>,
    NameFinaliseError,
>)
    ensures
        match res {
            Ok(Some(ext)) => extension_of(*path, *ext_mode) == Ok::<
                Option<Seq<char>>,
                NameFinaliseError,
            >(Some(ext@)),
            Ok(None) => extension_of(*path, *ext_mode) == Ok::<
                Option<Seq<char>>,
                NameFinaliseError,
            >(None),
            Err(reason) => extension_of(*path, *ext_mode) == Err::<
                Option<Seq<char>>,
                NameFinaliseError,
            >(reason),
        },
{
    match ext_mode {
        ExtensionMode::KeepAll => match &path.file_name {
            Some(name) => Ok(keep_all_extensions(name.as_str())),
            None => Err(NameFinaliseError::NotUtf8 { path: path.shown.clone() }),
        },
        ExtensionMode::KeepLast => match &path.extension {
            Some(Some(ext)) => Ok(Some(ext.clone())),
            Some(None) => Err(NameFinaliseError::NotUtf8 { path: path.shown.clone() }),
            None => Ok(None),
        },
        ExtensionMode::Static(ext) => Ok(Some(ext.clone())),
        ExtensionMode::Discard => Ok(None),
    }
}

/// What a run does about one file whose operation has failed.
#[derive(Debug, Copy, Clone, PartialEq, Eq, Structural)]
pub enum FailureAction {
    /// Leave the file out and go on.
    Skip,
    /// Tell the user and ask what to do.
    Ask,
    /// End the run with the failure.
    Halt,
}

/// What `err_mode` says to do about a failure.
pub fn on_failure(err_mode: ErrorHandlingMode) -> (action: FailureAction)
    ensures
        action == match err_mode {
            ErrorHandlingMode::Ignore => FailureAction::Skip,
            ErrorHandlingMode::Warn => FailureAction::Ask,
            ErrorHandlingMode::Halt => FailureAction::Halt,
        },
{
    match err_mode {
        ErrorHandlingMode::Ignore => FailureAction::Skip,
        ErrorHandlingMode::Warn => FailureAction::Ask,
        ErrorHandlingMode::Halt => FailureAction::Halt,
    }
}

/// What is done about one file once its extension was looked up.
#[derive(Debug, Clone, PartialEq, Eq)]
pub enum LookupStep {
    /// The file stays, with this extension.
    Keep { ext: Option<String> },
    /// The file is left out.
    Drop,
    /// The user is told of the failure and asked what to do.
    Ask { reason: NameFinaliseError },
    /// The run ends with the failure.
    Fail { reason: NameFinaliseError },
}

/// What is done about one file once the user has answered for it.
#[derive(Debug, Clone, PartialEq, Eq)]
pub enum AnswerStep {
    /// The file is left out.
    Drop,
    /// The file is tried again.
    Again,
    /// The run ends.
    Fail { reason: NameFinaliseError },
}

/// The view of an owned text that may be absent.
pub open spec fn text_of_owned(text: Option<String>) -> Option<Seq<char>> {
    match text {
        Some(t) => Some(t@),
        None => None,
    }
}

/// Looks up the extension of the file at `path` and says what is done about
/// the file: it stays with its extension; where there is none to be had, it
/// is left out, asked about, or the failure ends the run, as `err_mode` says.
pub fn extension_step(path: &PathText, ext_mode: &ExtensionMode, err_mode: ErrorHandlingMode) -> (step:
    LookupStep)
    ensures
        match extension_of(*path, *ext_mode) {
            Ok(ext) => step matches LookupStep::Keep { ext: kept } && text_of_owned(kept) == ext,
            Err(reason) => step == match err_mode {
                ErrorHandlingMode::Ignore => LookupStep::Drop,
                ErrorHandlingMode::Warn => (LookupStep::Ask { reason }),
                ErrorHandlingMode::Halt => (LookupStep::Fail { reason }),
            },
        },
{
    match get_extension(path, ext_mode) {
        Ok(ext) => LookupStep::Keep { ext },
        Err(reason) => match on_failure(err_mode) {
            FailureAction::Skip => LookupStep::Drop,
            FailureAction::Ask => LookupStep::Ask { reason },
            FailureAction::Halt => LookupStep::Fail { reason },
        },
    }
}

/// What the user's answer about a failure leads to: the file is left out or
/// tried again, or the run ends because the user said so.
pub fn answer_step(answer: OnErrorResponse) -> (step: AnswerStep)
    ensures
        step == match answer {
            OnErrorResponse::Skip => AnswerStep::Drop,
            OnErrorResponse::Retry => AnswerStep::Again,
            OnErrorResponse::Halt => (AnswerStep::Fail { reason: NameFinaliseError::UserHalt }),
        },
{
    match answer {
        OnErrorResponse::Skip => AnswerStep::Drop,
        OnErrorResponse::Retry => AnswerStep::Again,
        OnErrorResponse::Halt => AnswerStep::Fail { reason: NameFinaliseError::UserHalt },
    }
}

/// A generated name with what goes round it: the prefix before it, the
/// suffix after it, then a dot and the extension.
pub open spec fn combined_name(
    random_name: Seq<char>,
    prefix: Option<Seq<char>>,
    suffix: Option<Seq<char>>,
    ext: Option<Seq<char>>,
) -> Seq<char> {
    let before = match prefix {
        Some(text) => text,
        None => Seq::empty(),
    };
    let after = match suffix {
        Some(text) => text,
        None => Seq::empty(),
    };
    let tail = match ext {
        Some(text) => seq!['.'] + text,
        None => Seq::empty(),
    };
    before + random_name + after + tail
}

/// The view of a text that may be absent.
pub open spec fn text_of(text: Option<&str>) -> Option<Seq<char>> {
    match text {
        Some(t) => Some(t@),
        None => None,
    }
}

/// Puts prefix, generated name, suffix and extension together.
pub fn combine_name(
    random_name: &str,
    prefix: Option<&str>,
    suffix: Option<&str>,
    ext: Option<&str>,
) -> (name: String)
    ensures
        name@ == combined_name(random_name@, text_of(prefix), text_of(suffix), text_of(ext)),
{
    let mut name = String::new();
    if let Some(text) = prefix {
        name.append(text);
    }
    name.append(random_name);
    if let Some(text) = suffix {
        name.append(text);
    }
    if let Some(text) = ext {
        push_char(&mut name, '.');
        name.append(text);
    }
    assert(name@ =~= combined_name(
        random_name@,
        text_of(prefix),
        text_of(suffix),
        text_of(ext),
    ));
    name
}

/// The final name of a file: prefix, generated name, suffix and extension
/// put together and sanitised as a file name, under the rules of Windows
/// where `windows` says so. The name is never cut short: one that is too
/// long is left for the rename to refuse.
pub fn finalise_name_for(
    random_name: &str,
    prefix: Option<&str>,
    suffix: Option<&str>,
    ext: Option<&str>,
    windows: bool,
) -> (name: String)
    ensures
        name@ == sanitized(
            combined_name(random_name@, text_of(prefix), text_of(suffix), text_of(ext)),
            windows,
            false,
        ),
{
    let combined = combine_name(random_name, prefix, suffix, ext);
    sanitize(combined.as_str(), windows, false)
}

/// The final name of a file, sanitised under the rules of the platform that
/// the program was built for.
pub fn finalise_name(
    random_name: &str,
    prefix: Option<&str>,
    suffix: Option<&str>,
    ext: Option<&str>,
) -> (name: String)
    ensures
        exists|windows: bool|
            name@ == #[trigger] sanitized(
                combined_name(random_name@, text_of(prefix), text_of(suffix), text_of(ext)),
                windows,
                false,
            ),
{
    finalise_name_for(random_name, prefix, suffix, ext, windows_rules_by_default())
}

/// The final name of the `k`-th file of `files`, which are files with their
/// generated names and the extensions they keep.
pub open spec fn final_name_at<P>(
    files: Seq<(P, String, Option<String>)>,
    prefix: Option<Seq<char>>,
    suffix: Option<Seq<char>>,
    windows: bool,
    k: int,
) -> Seq<char> {
    let ext = match files[k].2 {
        Some(text) => Some(text@),
        None => None,
    };
    sanitized(combined_name(files[k].1@, prefix, suffix, ext), windows, false)
}

/// `finalised` holds the files of `files`, in order, each with its final
/// name under the rules that `windows` stands for.
pub open spec fn is_finalised<P>(
    finalised: Seq<(P, String)>,
    files: Seq<(P, String, Option<String>)>,
    prefix: Option<Seq<char>>,
    suffix: Option<Seq<char>>,
    windows: bool,
) -> bool {
    &&& finalised.len() == files.len()
    &&& forall|k: int|
        0 <= k < files.len() ==> {
            &&& (#[trigger] finalised[k]).0 == files[k].0
            &&& finalised[k].1@ == final_name_at(files, prefix, suffix, windows, k)
        }
}

/// Gives every file its final name: prefix, generated name, suffix and
/// extension put together and sanitised, all under the same rules. The files
/// stay as they are and in their order.
pub fn finalise_names<P>(
    files: Vec<(P, String, Option<String>)>,
    prefix: Option<&str>,
    suffix: Option<&str>,
) -> (finalised: Vec<(P, String)>)
    ensures
        exists|windows: bool| #[trigger]
            is_finalised(finalised@, files@, text_of(prefix), text_of(suffix), windows),
{
    let windows = windows_rules_by_default();
    let ghost all = files@;
    let mut finalised: Vec<(P, String)> = Vec::new();
    for file in it: files
        invariant
            it.seq() == all,
            finalised@.len() == it.index(),
            forall|k: int| 0 <= k < it.index() ==> (#[trigger] finalised@[k]).0 == all[k].0,
            forall|k: int|
                0 <= k < it.index() ==> (#[trigger] finalised@[k]).1@ == final_name_at(
                    all,
                    text_of(prefix),
                    text_of(suffix),
                    windows,
                    k,
                ),
    {
        let (path, random_name, ext) = file;
        let name = match &ext {
            Some(text) => finalise_name_for(
                random_name.as_str(),
                prefix,
                suffix,
                Some(text.as_str()),
                windows,
            ),
            None => finalise_name_for(random_name.as_str(), prefix, suffix, None, windows),
        };
        finalised.push((path, name));
    }
    assert(is_finalised(finalised@, all, text_of(prefix), text_of(suffix), windows));
    finalised
}

} // verus!

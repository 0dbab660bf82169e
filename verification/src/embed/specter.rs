//! The text that is embedded, and the deterministic number stream behind
//! the stand-in embedding that replaces a model.

use vstd::prelude::*;
use vstd::string::StringExecFns;

verus! {

/// The length of every embedding.
pub const EMBEDDING_DIMENSION: usize = 768;

/// What separates title and abstract in the text given to the model.
pub const SEPARATOR: &'static str = " [SEP] ";

/// The text that a paper is embedded by: the title, and behind a
/// separator the abstract if there is one that is not empty.
pub open spec fn model_input(title: Seq<char>, abstract_text: Option<Seq<char>>) -> Seq<char> {
    match abstract_text {
        Some(text) => if text.len() > 0 {
            title + SEPARATOR@ + text
        } else {
            title
        },
        None => title,
    }
}

/// Builds the text that a paper is embedded by.
pub fn embedding_text(title: &str, abstract_text: Option<&str>) -> (text: String)
    ensures
        text@ == model_input(
            title@,
            match abstract_text {
                Some(a) => Some(a@),
                None => None,
            },
        ),
{
    let mut text = String::from_str(title);
    match abstract_text {
        Some(a) => {
            if !a.is_empty() {
                text.append(SEPARATOR);
                text.append(a);
            }
        },
        None => {},
    }
    text
}

/// One step of the xorshift generator.
pub open spec fn xorshift(state: u64) -> u64 {
    let a = state ^ (state << 13);
    let b = a ^ (a >> 7);
    b ^ (b << 17)
}

/// The generator's state after `steps` steps from `seed`.
pub open spec fn state_after(seed: u64, steps: nat) -> u64
    decreases steps,
{
    if steps == 0 {
        seed
    } else {
        xorshift(state_after(seed, (steps - 1) as nat))
    }
}

/// Advances the generator by one step.
pub fn next_state(state: u64) -> (next: u64)
    ensures
        next == xorshift(state),
{
    let a = state ^ (state << 13);
    let b = a ^ (a >> 7);
    b ^ (b << 17)
}

/// The states from which the stand-in embedding of a text is made: one
/// per dimension, each a step further from the seed.
pub fn mock_states(seed: u64) -> (states: Vec<u64>)
    ensures
        states@.len() == EMBEDDING_DIMENSION,
        forall|i: int|
            0 <= i < EMBEDDING_DIMENSION ==> #[trigger] states@[i] == state_after(
                seed,
                (i + 1) as nat,
            ),
{
    let mut states: Vec<u64> = Vec::new();
    let mut state = seed;
    let mut i: usize = 0;
    while i < EMBEDDING_DIMENSION
        invariant
            0 <= i <= EMBEDDING_DIMENSION,
            states@.len() == i,
            state == state_after(seed, i as nat),
            forall|j: int| 0 <= j < i ==> #[trigger] states@[j] == state_after(seed, (j + 1) as nat),
        decreases EMBEDDING_DIMENSION - i,
    {
        state = next_state(state);
        states.push(state);
        i += 1;
    }
    states
}

} // verus!

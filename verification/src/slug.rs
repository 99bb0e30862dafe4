use rand::Rng;
use vstd::prelude::*;
use vstd::string::*;

verus! {

/// Number of symbols in a generated slug.
pub const SLUG_LENGTH: usize = 4;

/// Number of symbols a generated slug is drawn from.
pub const ALPHABET_SIZE: usize = 36;

/// The symbols of generated slugs, in the order in which a drawn index selects them.
pub open spec fn alphabet() -> Seq<char> {
    seq![
        '1', '2', '3', '4', '5', '6', '7', '8', '9', '0', 'a', 'b', 'c', 'd', 'e', 'f', 'g', 'h',
        'i', 'j', 'k', 'l', 'm', 'n', 'o', 'p', 'q', 'r', 's', 't', 'u', 'v', 'w', 'x', 'y', 'z',
    ]
}

/// A digit or a lower-case letter.
pub open spec fn is_slug_symbol(c: char) -> bool {
    ('0' <= c && c <= '9') || ('a' <= c && c <= 'z')
}

/// The shape of every generated slug: four symbols, each a digit or a lower-case letter.
pub open spec fn is_generated_slug(s: Seq<char>) -> bool {
    &&& s.len() == SLUG_LENGTH
    &&& forall|i: int| 0 <= i < s.len() ==> is_slug_symbol(#[trigger] s[i])
}

/// The slug that a sequence of drawn indices selects.
pub open spec fn slug_of(indices: Seq<usize>) -> Seq<char> {
    Seq::new(indices.len(), |k: int| alphabet()[indices[k] as int])
}

/// Every symbol of the alphabet is a digit or a lower-case letter.
pub proof fn lemma_alphabet_symbols()
    ensures
        alphabet().len() == ALPHABET_SIZE,
        forall|i: int| 0 <= i < alphabet().len() ==> is_slug_symbol(#[trigger] alphabet()[i]),
{
}

/// `rand::rngs::ThreadRng`, the handle to a thread's random number
/// generator: carried as it is, nothing is known of what it holds.
#[verifier::external_type_specification]
#[verifier::external_body]
pub struct ExThreadRng(rand::rngs::ThreadRng);

/// `rand::thread_rng`: hands out the calling thread's generator. Nothing is
/// claimed of the generator.
pub assume_specification[ rand::thread_rng ]() -> (rng: rand::rngs::ThreadRng);

/// `rand::Rng::gen_range` on the half-open range from 0 to `bound`: the number
/// drawn lies in the range. Which number comes is left open. The range must not
/// be empty: the generator panics on an empty one.
#[verifier::external_body]
fn draw_below(rng: &mut rand::rngs::ThreadRng, bound: usize) -> (index: usize)
    requires
        bound > 0,
    ensures
        index < bound,
{
    rng.gen_range(0..bound)
}

/// Spells the slug that the given indices select from the alphabet.
pub fn slug_from_indices(indices: &[usize]) -> (slug: String)
    requires
        forall|k: int| 0 <= k < indices@.len() ==> #[trigger] indices@[k] < ALPHABET_SIZE,
    ensures
        slug@ == slug_of(indices@),
{
    let symbols = "1234567890abcdefghijklmnopqrstuvwxyz";
    proof {
        reveal_strlit("1234567890abcdefghijklmnopqrstuvwxyz");
        assert(symbols@ =~= alphabet());
    }
    let mut slug = String::new();
    let mut k: usize = 0;
    while k < indices.len()
        invariant
            k <= indices@.len(),
            symbols@ == alphabet(),
            symbols.is_ascii(),
            forall|j: int| 0 <= j < indices@.len() ==> #[trigger] indices@[j] < ALPHABET_SIZE,
            slug@ == slug_of(indices@.take(k as int)),
        decreases indices@.len() - k,
    {
        let i: usize = indices[k];
        let symbol = symbols.substring_ascii(i, i + 1);
        slug.append(symbol);
        proof {
            assert(slug@ =~= slug_of(indices@.take(k + 1)));
        }
        k = k + 1;
    }
    proof {
        assert(indices@.take(k as int) =~= indices@);
    }
    slug
}

/// Draws a slug: four symbols, each drawn from the whole alphabet.
pub fn draw_slug(rng: &mut rand::rngs::ThreadRng) -> (slug: String)
    ensures
        is_generated_slug(slug@),
{
    let mut indices: Vec<usize> = Vec::new();
    let mut k: usize = 0;
    while k < SLUG_LENGTH
        invariant
            k <= SLUG_LENGTH,
            indices@.len() == k,
            forall|j: int| 0 <= j < indices@.len() ==> #[trigger] indices@[j] < ALPHABET_SIZE,
        decreases SLUG_LENGTH - k,
    {
        let index = draw_below(rng, ALPHABET_SIZE);
        indices.push(index);
        k = k + 1;
    }
    proof {
        lemma_alphabet_symbols();
    }
    slug_from_indices(indices.as_slice())
}

} // verus!

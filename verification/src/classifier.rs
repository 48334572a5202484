//! The small model: a fastText supervised classifier. Loading, training and
//! predicting read files or yield probabilities, and are done by the caller;
//! here are what the tool reads off a model and the choices it makes for a
//! training run.
use fasttext::FastText;

use vstd::prelude::*;

use crate::text::views;

verus! {

/// The fastText model type, opaque to proofs.
#[verifier::external_type_specification]
#[verifier::external_body]
pub struct ExFastText(FastText);

/// The labels of a model's dictionary, in dictionary order (with their
/// `__label__` prefix).
pub uninterp spec fn model_labels(m: FastText) -> Seq<Seq<char>>;

/// The words of a model's dictionary, in dictionary order.
pub uninterp spec fn model_words(m: FastText) -> Seq<Seq<char>>;

/// The vector dimension that a model was trained with.
pub uninterp spec fn model_dimension(m: FastText) -> i32;

/// The number of word entries that a model's dictionary declares.
pub uninterp spec fn model_word_count(m: FastText) -> i32;

/// The number of label entries that a model's dictionary declares.
pub uninterp spec fn model_label_count(m: FastText) -> i32;

/// The number of entries that a model's dictionary holds.
pub uninterp spec fn model_entry_count(m: FastText) -> usize;

/// Whether the declared word and label counts fit the entries that the
/// dictionary holds: words first, then labels. A model file can declare
/// more than it holds and still load.
pub open spec fn counts_fit(m: FastText) -> bool {
    &&& 0 <= model_word_count(m)
    &&& 0 <= model_label_count(m)
    &&& model_word_count(m) + model_label_count(m) <= model_entry_count(m)
}

/// `Dictionary::nwords` of `FastText::dict`: its source returns the
/// dictionary's `nwords` field.
#[verifier::external_body]
fn dictionary_word_count(m: &FastText) -> (r: i32)
    ensures
        r == model_word_count(*m),
{
    m.dict().nwords()
}

/// `Dictionary::nlabels` of `FastText::dict`: its source returns the
/// dictionary's `nlabels` field.
#[verifier::external_body]
fn dictionary_label_count(m: &FastText) -> (r: i32)
    ensures
        r == model_label_count(*m),
{
    m.dict().nlabels()
}

/// `Dictionary::words` of `FastText::dict`: its source returns the slice of
/// all entries; this keeps its length.
#[verifier::external_body]
fn dictionary_entry_count(m: &FastText) -> (r: usize)
    ensures
        r == model_entry_count(*m),
{
    m.dict().words().len()
}

/// `FastText::get_labels`: its source copies the entries
/// `words[nwords..nwords + nlabels]` of the dictionary, in order, with their
/// counts (and panics on that slice when the counts do not fit); this keeps
/// the labels.
#[verifier::external_body]
fn dictionary_labels(m: &FastText) -> (r: Vec<String>)
    requires
        counts_fit(*m),
    ensures
        views(r@) == model_labels(*m),
        r@.len() == model_label_count(*m),
{
    m.get_labels().0
}

/// `FastText::get_vocab`: its source copies the entries `words[..nwords]`
/// of the dictionary, in order, with their counts (and panics on that slice
/// when the count does not fit); this keeps the words.
#[verifier::external_body]
fn dictionary_words(m: &FastText) -> (r: Vec<String>)
    requires
        counts_fit(*m),
    ensures
        views(r@) == model_words(*m),
        r@.len() == model_word_count(*m),
{
    m.get_vocab().0
}

/// `FastText::get_dimension`: the `dim` argument of the model.
#[verifier::external_body]
fn dimension(m: &FastText) -> (r: i32)
    ensures
        r == model_dimension(*m),
{
    m.get_dimension()
}

/// Whether a model holds quantized matrices (the `quant` flag that it was
/// loaded or quantized with).
pub uninterp spec fn model_quantized(m: FastText) -> bool;

/// `FastText::is_quant`: its source returns the model's `quant` flag; the
/// contract names that flag.
#[verifier::external_body]
fn quantized(m: &FastText) -> (r: bool)
    ensures
        r == model_quantized(*m),
{
    m.is_quant()
}

/// A loaded small model.
#[derive(Debug)]
pub struct Classifier {
    model: FastText,
}

impl Classifier {
    /// The fastText model of the classifier.
    pub closed spec fn spec_model(self) -> FastText {
        self.model
    }

    /// A classifier for a loaded model.
    pub fn from_model(model: FastText) -> (r: Classifier)
        ensures
            r.spec_model() == model,
    {
        Classifier { model }
    }

    /// Whether the dictionary's word and label counts fit its entries, which
    /// reading the labels and the vocabulary needs.
    pub fn dictionary_fits(&self) -> (b: bool)
        ensures
            b == counts_fit(self.spec_model()),
    {
        let words = dictionary_word_count(&self.model);
        let labels = dictionary_label_count(&self.model);
        let entries = dictionary_entry_count(&self.model);
        if words < 0 || labels < 0 {
            return false;
        }
        (words as usize) <= entries && (labels as usize) <= entries - (words as usize)
    }

    /// The fastText model of the classifier.
    pub fn model(&self) -> (r: &FastText)
        ensures
            *r == self.spec_model(),
    {
        &self.model
    }

    /// The labels of the model (with their `__label__` prefix).
    pub fn labels(&self) -> (r: Vec<String>)
        requires
            counts_fit(self.spec_model()),
        ensures
            views(r@) == model_labels(self.spec_model()),
    {
        dictionary_labels(&self.model)
    }

    /// The number of words in the model's vocabulary.
    pub fn vocab_size(&self) -> (r: usize)
        requires
            counts_fit(self.spec_model()),
        ensures
            r == model_words(self.spec_model()).len(),
    {
        let words = dictionary_words(&self.model);
        assert(views(words@).len() == words@.len());
        words.len()
    }

    /// The vector dimension of the model.
    pub fn dim(&self) -> (r: i32)
        ensures
            r == model_dimension(self.spec_model()),
    {
        dimension(&self.model)
    }

    /// Whether the model is quantized.
    pub fn is_quantized(&self) -> (r: bool)
        ensures
            r == model_quantized(self.spec_model()),
    {
        quantized(&self.model)
    }
}

/// The number of training threads: the requested number when it is
/// positive, else the parallelism that the machine offers (as `i32`, the
/// way `usize as i32` converts), else 4.
pub open spec fn train_threads_spec(requested: i32, available: Option<usize>) -> i32 {
    if requested > 0 {
        requested
    } else {
        match available {
            Some(n) => n as i32,
            None => 4,
        }
    }
}

/// The number of training threads for a request of `requested` when the
/// machine reports `available` (nothing when it cannot tell).
pub fn train_threads(requested: i32, available: Option<usize>) -> (r: i32)
    ensures
        r == train_threads_spec(requested, available),
{
    if requested > 0 {
        requested
    } else {
        match available {
            Some(n) => n as i32,
            None => 4,
        }
    }
}

/// A positive thread count is used as it was asked for; only zero or a
/// negative count asks for the machine's parallelism, and 4 threads when the
/// machine cannot tell.
pub proof fn law_requested_threads_used(requested: i32, available: Option<usize>)
    ensures
        requested > 0 ==> train_threads_spec(requested, available) == requested,
        requested <= 0 && available is None ==> train_threads_spec(requested, available) == 4,
        forall|n: usize|
            requested <= 0 && available == Some(n) && n <= i32::MAX ==> #[trigger] train_threads_spec(
                requested,
                Some(n),
            ) == n,
{
}

/// The bucket count of a training run: word n-grams need buckets.
pub const TRAIN_BUCKET: i32 = 2_000_000;

} // verus!

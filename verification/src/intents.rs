//! Intent classification: which of a fixed set of intents a transcript means,
//! decided by how close it lies to the example phrases of each.
//!
//! Phrases are turned into vectors, and vectors compared, outside this
//! crate. Similarities come in as the bit patterns of IEEE 754
//! single-precision numbers, and are ordered here as those numbers are.
use vstd::prelude::*;

verus! {

/// The bit that holds the sign of a single-precision number.
pub const SIGN_BIT: u32 = 0x8000_0000;

/// The pattern of positive infinity; a greater magnitude is not a number.
pub const INFINITY_BITS: u32 = 0x7F80_0000;

/// The pattern of one half, the least similarity that a match is accepted at.
pub const CONFIDENCE_FLOOR_BITS: u32 = 0x3F00_0000;

/// The pattern `bits` without its sign.
pub open spec fn magnitude(bits: u32) -> int {
    if bits >= SIGN_BIT {
        bits - SIGN_BIT
    } else {
        bits as int
    }
}

/// Whether `bits` stands for no number.
pub open spec fn is_nan(bits: u32) -> bool {
    magnitude(bits) > INFINITY_BITS
}

/// An integer that orders the patterns of numbers as the numbers themselves
/// are ordered; the two zeros share one.
pub open spec fn order_key(bits: u32) -> int {
    if bits >= SIGN_BIT {
        -magnitude(bits)
    } else {
        magnitude(bits)
    }
}

/// Whether `a` is a number strictly greater than the number `b`. Where
/// either is not a number, it is not.
pub open spec fn exceeds(a: u32, b: u32) -> bool {
    !is_nan(a) && !is_nan(b) && order_key(a) > order_key(b)
}

/// Whether `score` is a number no less than one half.
pub open spec fn confident(score: u32) -> bool {
    !is_nan(score) && order_key(score) >= CONFIDENCE_FLOOR_BITS
}

pub fn score_is_nan(bits: u32) -> (nan: bool)
    ensures
        nan == is_nan(bits),
{
    if bits >= SIGN_BIT {
        bits - SIGN_BIT > INFINITY_BITS
    } else {
        bits > INFINITY_BITS
    }
}

pub fn score_exceeds(a: u32, b: u32) -> (greater: bool)
    ensures
        greater == exceeds(a, b),
{
    if score_is_nan(a) || score_is_nan(b) {
        return false;
    }
    if a >= SIGN_BIT {
        // a is zero or negative: it exceeds only what is further below zero
        b >= SIGN_BIT && b - SIGN_BIT > a - SIGN_BIT
    } else if b >= SIGN_BIT {
        // b is zero or negative, a is zero or positive
        a > 0 || b > SIGN_BIT
    } else {
        a > b
    }
}

pub fn score_is_confident(score: u32) -> (yes: bool)
    ensures
        yes == confident(score),
{
    score >= CONFIDENCE_FLOOR_BITS && score <= INFINITY_BITS
}

/// Where the five files of a local embedding model lie.
#[derive(Clone, Copy, Debug)]
pub struct EmbeddingModelFilePaths<'a> {
    pub onnx: &'a str,
    pub tokenizer: &'a str,
    pub config: &'a str,
    pub special_tokens_map: &'a str,
    pub tokenizer_config: &'a str,
}

/// An intent as it is registered: its identifier and its example phrases.
#[derive(Debug)]
pub struct Intent<T> {
    pub id: T,
    pub examples: Vec<String>,
}

/// The intents that a recognizer is to be built from, in the order in which
/// they were added.
pub struct IntentsConfig<T> {
    intents: Vec<Intent<T>>,
}

/// Why no recognizer could be built.
#[derive(Debug, PartialEq, Eq)]
pub enum IntentRecognizerBuildError {
    /// The embedding model could not be made or did not embed the examples;
    /// the text says why.
    TextEmbeddingError(String),
    NoIntentsProvided,
    /// An intent has no example phrase.
    IntentWithoutExamples,
}

/// Why a transcript was given no intent.
#[derive(Debug, PartialEq, Eq)]
pub enum IntentRecognizerError {
    /// The embedding model did not embed the transcript; the text says why.
    TextEmbeddingError(String),
    /// No example is similar enough.
    ScoreTooLow,
}

/// What is wrong with a set of intents before any embedding: there is none,
/// or one of them has no example.
pub open spec fn config_fault<T>(intents: Seq<Intent<T>>) -> Option<IntentRecognizerBuildError> {
    if intents.len() == 0 {
        Some(IntentRecognizerBuildError::NoIntentsProvided)
    } else if exists|i: int| 0 <= i < intents.len() && (#[trigger] intents[i]).examples@.len() == 0 {
        Some(IntentRecognizerBuildError::IntentWithoutExamples)
    } else {
        None
    }
}

impl<T> IntentsConfig<T> {
    /// The intents added so far.
    pub closed spec fn intents(&self) -> Seq<Intent<T>> {
        self.intents@
    }

    /// A configuration without intents.
    pub fn new() -> (config: Self)
        ensures
            config.intents() == Seq::<Intent<T>>::empty(),
    {
        IntentsConfig { intents: Vec::new() }
    }

    /// Adds the intent `id` with the example phrases `examples`.
    pub fn add_intent(&mut self, id: T, examples: Vec<String>)
        ensures
            final(self).intents() == old(self).intents().push(Intent { id, examples }),
    {
        self.intents.push(Intent { id, examples });
    }

    pub fn len(&self) -> (n: usize)
        ensures
            n == self.intents().len(),
    {
        self.intents.len()
    }

    /// The example phrases of the intent number `index`.
    pub fn examples(&self, index: usize) -> (examples: &Vec<String>)
        requires
            index < self.intents().len(),
        ensures
            *examples == self.intents()[index as int].examples,
    {
        &self.intents[index].examples
    }

    /// Whether a recognizer can be built from these intents, as far as the
    /// intents themselves decide it.
    pub fn validate(&self) -> (checked: Result<(), IntentRecognizerBuildError>)
        ensures
            checked == match config_fault(self.intents()) {
                Some(fault) => Err::<(), _>(fault),
                None => Ok(()),
            },
    {
        if self.intents.len() == 0 {
            return Err(IntentRecognizerBuildError::NoIntentsProvided);
        }
        let mut i: usize = 0;
        while i < self.intents.len()
            invariant
                i <= self.intents@.len(),
                forall|k: int| 0 <= k < i ==> (#[trigger] self.intents@[k]).examples@.len() > 0,
            decreases self.intents@.len() - i,
        {
            if self.intents[i].examples.len() == 0 {
                return Err(IntentRecognizerBuildError::IntentWithoutExamples);
            }
            i = i + 1;
        }
        Ok(())
    }
}

/// Whether `embed` may give vectors for the phrases `examples`.
pub open spec fn can_embed<F: Fn(&Vec<String>) -> Result<Vec<Vec<u32>>, String>>(
    embed: F,
    examples: Vec<String>,
) -> bool {
    exists|given: Vec<Vec<u32>>| call_ensures(embed, (&examples,), Ok(given))
}

/// Whether the intent number `i` can be the first that `embed` fails on,
/// with the reason `why`.
pub open spec fn fails_first_at<T, F: Fn(&Vec<String>) -> Result<Vec<Vec<u32>>, String>>(
    intents: Seq<Intent<T>>,
    embed: F,
    i: int,
    why: String,
) -> bool {
    &&& 0 <= i < intents.len()
    &&& call_ensures(embed, (&intents[i].examples,), Err(why))
    &&& forall|k: int| 0 <= k < i ==> can_embed(embed, (#[trigger] intents[k]).examples)
}

/// Whether `embedded` can be what `embed` makes of the example phrases of
/// `intents`, asked for one intent after another until it fails: the
/// vectors that it gave for each intent, or the reason that it gave for the
/// first intent that it failed on.
pub open spec fn embedded_by<T, F: Fn(&Vec<String>) -> Result<Vec<Vec<u32>>, String>>(
    intents: Seq<Intent<T>>,
    embed: F,
    embedded: Result<Vec<Vec<Vec<u32>>>, String>,
) -> bool {
    match embedded {
        Ok(vectors) => {
            &&& vectors@.len() == intents.len()
            &&& forall|i: int|
                0 <= i < intents.len() ==> call_ensures(
                    embed,
                    (&intents[i].examples,),
                    Ok(#[trigger] vectors@[i]),
                )
        },
        Err(why) => exists|i: int| #[trigger] fails_first_at(intents, embed, i, why),
    }
}

impl<T> IntentsConfig<T> {
    /// Has the example phrases of every intent embedded, one intent after
    /// another: `embed` gives the vectors of the phrases that it is handed,
    /// or the reason why it cannot. The first failure ends it and is the
    /// answer.
    pub fn embed_examples<F: Fn(&Vec<String>) -> Result<Vec<Vec<u32>>, String>>(
        &self,
        embed: F,
    ) -> (embedded: Result<Vec<Vec<Vec<u32>>>, String>)
        requires
            forall|i: int|
                0 <= i < self.intents().len() ==> call_requires(
                    embed,
                    (&(#[trigger] self.intents()[i]).examples,),
                ),
        ensures
            embedded_by(self.intents(), embed, embedded),
    {
        let mut vectors: Vec<Vec<Vec<u32>>> = Vec::new();
        let mut i: usize = 0;
        while i < self.intents.len()
            invariant
                i <= self.intents().len(),
                vectors@.len() == i,
                forall|k: int|
                    0 <= k < self.intents().len() ==> call_requires(
                        embed,
                        (&(#[trigger] self.intents()[k]).examples,),
                    ),
                forall|k: int|
                    0 <= k < i ==> call_ensures(
                        embed,
                        (&self.intents()[k].examples,),
                        Ok(#[trigger] vectors@[k]),
                    ),
            decreases self.intents().len() - i,
        {
            let examples = &self.intents[i].examples;
            assert(*examples == self.intents()[i as int].examples);
            match embed(examples) {
                Ok(given) => {
                    vectors.push(given);
                },
                Err(why) => {
                    proof {
                        assert forall|k: int| 0 <= k < i implies can_embed(
                            embed,
                            (#[trigger] self.intents()[k]).examples,
                        ) by {
                            assert(call_ensures(
                                embed,
                                (&self.intents()[k].examples,),
                                Ok(vectors@[k]),
                            ));
                        }
                        assert(fails_first_at(self.intents(), embed, i as int, why));
                        let failed: Result<Vec<Vec<Vec<u32>>>, String> = Err(why);
                        assert(failed matches Err(reason) && reason == why);
                    }
                    return Err(why);
                },
            }
            i = i + 1;
        }
        Ok(vectors)
    }
}

/// The example that is best so far in a scan: the number of the intent that
/// owns it, and its similarity.
pub type Candidate = (int, u32);

/// The best example once one more example, of the intent number `owner` and
/// with the similarity `score`, has been looked at.
///
/// The first example is the best so far. A later one takes its place only
/// where its similarity is a number strictly greater than that of the best
/// so far: of equal similarities the earlier stays, and so it does where
/// either of the two is not a number.
pub open spec fn after_example(best: Option<Candidate>, owner: int, score: u32) -> Option<
    Candidate,
> {
    match best {
        None => Some((owner, score)),
        Some((_, best_score)) => if exceeds(score, best_score) {
            Some((owner, score))
        } else {
            best
        },
    }
}

/// The best example once the examples of the intent number `owner`, with the
/// similarities `scores`, have been looked at in order.
pub open spec fn after_intent(best: Option<Candidate>, owner: int, scores: Seq<u32>) -> Option<
    Candidate,
>
    decreases scores.len(),
{
    if scores.len() == 0 {
        best
    } else {
        after_example(after_intent(best, owner, scores.drop_last()), owner, scores.last())
    }
}

/// The best example of all: `scores[i][j]` is the similarity of the example
/// number `j` of the intent number `i`, and the intents are looked at in
/// order. `None` where there is no example at all.
pub open spec fn closest(scores: Seq<Seq<u32>>) -> Option<Candidate>
    decreases scores.len(),
{
    if scores.len() == 0 {
        None
    } else {
        after_intent(closest(scores.drop_last()), scores.len() - 1, scores.last())
    }
}

/// The rows of a table of similarities.
pub open spec fn rows(table: Seq<Vec<u32>>) -> Seq<Seq<u32>> {
    Seq::new(table.len(), |i: int| table[i]@)
}

/// The example closest to the transcript: the number of its intent, and its
/// similarity. `scores[i][j]` is the similarity between the transcript and
/// the example number `j` of the intent number `i`.
pub fn find_closest(scores: &Vec<Vec<u32>>) -> (best: Option<(usize, u32)>)
    ensures
        match best {
            Some((owner, score)) => closest(rows(scores@)) == Some((owner as int, score)),
            None => closest(rows(scores@)) is None,
        },
{
    let ghost table = rows(scores@);
    let mut best: Option<(usize, u32)> = None;
    let mut i: usize = 0;
    proof {
        assert(table.subrange(0, 0) =~= Seq::<Seq<u32>>::empty());
    }
    while i < scores.len()
        invariant
            i <= scores@.len(),
            table == rows(scores@),
            match best {
                Some((owner, score)) => closest(table.subrange(0, i as int)) == Some(
                    (owner as int, score),
                ),
                None => closest(table.subrange(0, i as int)) is None,
            },
        decreases scores@.len() - i,
    {
        let row = &scores[i];
        let ghost before = closest(table.subrange(0, i as int));
        let mut j: usize = 0;
        proof {
            assert(table[i as int].subrange(0, 0) =~= Seq::<u32>::empty());
        }
        while j < row.len()
            invariant
                j <= row@.len(),
                i < scores@.len(),
                row@ == table[i as int],
                match best {
                    Some((owner, score)) => after_intent(
                        before,
                        i as int,
                        row@.subrange(0, j as int),
                    ) == Some((owner as int, score)),
                    None => after_intent(before, i as int, row@.subrange(0, j as int)) is None,
                },
            decreases row@.len() - j,
        {
            let score = row[j];
            proof {
                let seen = row@.subrange(0, j + 1);
                assert(seen.drop_last() =~= row@.subrange(0, j as int));
                assert(seen.last() == score);
            }
            best = match best {
                None => Some((i, score)),
                Some((owner, best_score)) => if score_exceeds(score, best_score) {
                    Some((i, score))
                } else {
                    Some((owner, best_score))
                },
            };
            j = j + 1;
        }
        proof {
            let seen = table.subrange(0, i + 1);
            assert(seen.drop_last() =~= table.subrange(0, i as int));
            assert(seen.last() == table[i as int]);
            assert(row@.subrange(0, j as int) =~= row@);
        }
        i = i + 1;
    }
    proof {
        assert(table.subrange(0, i as int) =~= table);
    }
    best
}

/// An intent as a recognizer holds it: its identifier, and the vector of each
/// of its example phrases, each number of a vector as its bit pattern.
#[derive(Debug)]
pub struct ProcessedIntent<T> {
    pub id: T,
    pub examples: Vec<Vec<u32>>,
}

/// Whether `vectors` holds, for each intent of `intents` in order, one vector
/// for each of its example phrases.
pub open spec fn shape_matches<T>(intents: Seq<Intent<T>>, vectors: Seq<Vec<Vec<u32>>>) -> bool {
    &&& vectors.len() == intents.len()
    &&& forall|i: int|
        0 <= i < intents.len() ==> (#[trigger] vectors[i])@.len() == intents[i].examples@.len()
}

/// The intents `intents` with the vectors `vectors` in place of their phrases.
pub open spec fn processed<T>(intents: Seq<Intent<T>>, vectors: Seq<Vec<Vec<u32>>>) -> Seq<
    ProcessedIntent<T>,
> {
    Seq::new(
        intents.len(),
        |i: int| ProcessedIntent { id: intents[i].id, examples: vectors[i] },
    )
}

/// What the recognizer answers where the best example is `best`: the intent
/// that owns it where its similarity is a number no less than one half, and
/// `ScoreTooLow` where it is not, or where there is no example.
pub open spec fn verdict<T>(intents: Seq<ProcessedIntent<T>>, best: Option<Candidate>) -> Result<
    T,
    IntentRecognizerError,
> {
    match best {
        Some((owner, score)) => if confident(score) {
            Ok(intents[owner].id)
        } else {
            Err(IntentRecognizerError::ScoreTooLow)
        },
        None => Err(IntentRecognizerError::ScoreTooLow),
    }
}

/// The text of the error for vectors that do not match the phrases.
pub open spec fn misshapen() -> Seq<char> {
    "the embedding model did not give one vector for each example"@
}

/// The intents with the vectors of their examples: what transcripts are
/// classified against. It holds at least one intent, and each of its intents
/// has at least one example.
pub struct IntentRecognizer<T> {
    intents: Vec<ProcessedIntent<T>>,
}

impl<T> IntentRecognizer<T> {
    #[verifier::type_invariant]
    spec fn well_formed(self) -> bool {
        &&& self.intents@.len() > 0
        &&& forall|i: int|
            0 <= i < self.intents@.len() ==> (#[trigger] self.intents@[i]).examples@.len() > 0
    }

    /// The intents, in the order in which they were added.
    pub closed spec fn intents(&self) -> Seq<ProcessedIntent<T>> {
        self.intents@
    }

    /// Builds the recognizer for the intents of `config`. `embedded` is what
    /// the embedding model made of their example phrases: for each intent in
    /// order the vector of each of its phrases, or the reason why the model
    /// could not be made or did not embed them.
    ///
    /// The intents are looked at first: without any intent, or with an
    /// intent without examples, nothing is built, whatever the model gave.
    /// After that a failure of the model is handed on, and vectors that do
    /// not match the phrases in number count as one. So with examples for
    /// every intent and a model that embedded them, nothing but a want of
    /// intents makes it fail.
    #[verifier::loop_isolation(false)]
    pub fn build(config: IntentsConfig<T>, embedded: Result<Vec<Vec<Vec<u32>>>, String>) -> (built:
        Result<Self, IntentRecognizerBuildError>)
        ensures
            config_fault(config.intents()) matches Some(fault) ==> built == Err::<Self, _>(fault),
            config_fault(config.intents()) is None ==> match embedded {
                Err(why) => built == Err::<Self, _>(
                    IntentRecognizerBuildError::TextEmbeddingError(why),
                ),
                Ok(vectors) => if shape_matches(config.intents(), vectors@) {
                    built is Ok && built->Ok_0.intents() == processed(config.intents(), vectors@)
                } else {
                    built matches Err(IntentRecognizerBuildError::TextEmbeddingError(why))
                        && why@ == misshapen()
                },
            },
            (forall|i: int|
                0 <= i < config.intents().len() ==> (#[trigger] config.intents()[i]).examples@.len()
                    > 0) && (embedded matches Ok(vectors) && (config.intents().len() > 0
                ==> shape_matches(config.intents(), vectors@))) ==> (built is Err
                <==> config.intents().len() == 0),
    {
        match config.validate() {
            Err(fault) => {
                return Err(fault);
            },
            Ok(()) => {},
        }
        let mut vectors = match embedded {
            Err(why) => {
                return Err(IntentRecognizerBuildError::TextEmbeddingError(why));
            },
            Ok(vectors) => vectors,
        };
        let ghost registered = config.intents();
        let ghost given = vectors@;
        let mut waiting = config.intents;
        if vectors.len() != waiting.len() {
            return Err(
                IntentRecognizerBuildError::TextEmbeddingError(
                    "the embedding model did not give one vector for each example".to_owned(),
                ),
            );
        }
        // The last intent is taken first: what is built is turned round below.
        let mut backwards: Vec<ProcessedIntent<T>> = Vec::new();
        while waiting.len() > 0
            invariant
                waiting@.len() == vectors@.len(),
                waiting@ == registered.subrange(0, waiting@.len() as int),
                vectors@ == given.subrange(0, vectors@.len() as int),
                registered.len() == given.len(),
                backwards@.len() == registered.len() - waiting@.len(),
                forall|i: int|
                    0 <= i < registered.len() ==> (#[trigger] registered[i]).examples@.len() > 0,
                forall|k: int|
                    0 <= k < backwards@.len() ==> {
                        let i = registered.len() - 1 - k;
                        &&& (#[trigger] backwards@[k]).id == registered[i].id
                        &&& backwards@[k].examples == given[i]
                        &&& given[i]@.len() == registered[i].examples@.len()
                    },
            decreases waiting@.len(),
        {
            let ghost at = waiting@.len() - 1;
            let intent = waiting.pop().unwrap();
            let examples = vectors.pop().unwrap();
            assert(intent == registered[at]);
            assert(examples == given[at]);
            if examples.len() != intent.examples.len() {
                assert(!shape_matches(registered, given));
                return Err(
                    IntentRecognizerBuildError::TextEmbeddingError(
                        "the embedding model did not give one vector for each example".to_owned(),
                    ),
                );
            }
            backwards.push(ProcessedIntent { id: intent.id, examples });
        }
        let mut intents: Vec<ProcessedIntent<T>> = Vec::new();
        while backwards.len() > 0
            invariant
                intents@.len() + backwards@.len() == registered.len(),
                registered.len() == given.len(),
                forall|i: int|
                    0 <= i < registered.len() ==> (#[trigger] registered[i]).examples@.len() > 0,
                forall|k: int|
                    0 <= k < backwards@.len() ==> {
                        let i = registered.len() - 1 - k;
                        &&& (#[trigger] backwards@[k]).id == registered[i].id
                        &&& backwards@[k].examples == given[i]
                        &&& given[i]@.len() == registered[i].examples@.len()
                    },
                forall|i: int|
                    0 <= i < intents@.len() ==> {
                        &&& (#[trigger] intents@[i]).id == registered[i].id
                        &&& intents@[i].examples == given[i]
                        &&& given[i]@.len() == registered[i].examples@.len()
                    },
            decreases backwards@.len(),
        {
            let next = backwards.pop().unwrap();
            intents.push(next);
        }
        proof {
            assert forall|i: int| 0 <= i < registered.len() implies (#[trigger] given[i])@.len()
                == registered[i].examples@.len() by {
                assert(intents@[i].examples == given[i]);
            }
            assert(intents@ =~= processed(registered, given));
        }
        Ok(IntentRecognizer { intents })
    }

    pub fn len(&self) -> (n: usize)
        ensures
            n == self.intents().len(),
            n > 0,
    {
        proof {
            use_type_invariant(self);
        }
        self.intents.len()
    }

    /// The vectors of the examples of the intent number `index`.
    pub fn examples(&self, index: usize) -> (examples: &Vec<Vec<u32>>)
        requires
            index < self.intents().len(),
        ensures
            *examples == self.intents()[index as int].examples,
            examples@.len() > 0,
    {
        proof {
            use_type_invariant(self);
        }
        &self.intents[index].examples
    }

    /// The intent that the similarities `scores` speak for. `scores[i][j]`
    /// is the similarity between the transcript and the example number `j`
    /// of the intent number `i`.
    ///
    /// The closest example decides: its intent is the answer where its
    /// similarity is a number no less than one half, and else there is no
    /// confident match.
    pub fn classify(&self, scores: &Vec<Vec<u32>>) -> (intent: Result<&T, IntentRecognizerError>)
        requires
            scores@.len() == self.intents().len(),
        ensures
            match verdict(self.intents(), closest(rows(scores@))) {
                Ok(id) => intent matches Ok(found) && *found == id,
                Err(error) => intent == Err::<&T, _>(error),
            },
            intent is Ok ==> (closest(rows(scores@)) matches Some((_, score)) && confident(score)),
    {
        proof {
            lemma_closest_is_an_example(rows(scores@));
        }
        match find_closest(scores) {
            Some((owner, score)) => {
                if score_is_confident(score) {
                    Ok(&self.intents[owner].id)
                } else {
                    Err(IntentRecognizerError::ScoreTooLow)
                }
            },
            None => Err(IntentRecognizerError::ScoreTooLow),
        }
    }
}


/// Whether `scores` can be what `similarity` gives for the examples of
/// `intents`: one similarity for each example, each of them one that
/// `similarity` may return for the vector of that example.
pub open spec fn scored_by<T, F: Fn(&Vec<u32>) -> u32>(
    intents: Seq<ProcessedIntent<T>>,
    similarity: F,
    scores: Seq<Seq<u32>>,
) -> bool {
    &&& scores.len() == intents.len()
    &&& forall|i: int|
        0 <= i < intents.len() ==> (#[trigger] scores[i]).len() == intents[i].examples@.len()
    &&& forall|i: int, j: int|
        0 <= i < intents.len() && 0 <= j < intents[i].examples@.len() ==> call_ensures(
            similarity,
            (&intents[i].examples@[j],),
            #[trigger] scores[i][j],
        )
}

impl<T> IntentRecognizer<T> {
    /// The intent that a transcript means. `similarity` gives the similarity
    /// between the transcript and the vector of an example; it is asked once
    /// for each example of each intent, in order.
    ///
    /// The answer is that of [`IntentRecognizer::classify`] on what
    /// `similarity` gave.
    pub fn recognize<F: Fn(&Vec<u32>) -> u32>(&self, similarity: F) -> (intent: Result<
        &T,
        IntentRecognizerError,
    >)
        requires
            forall|i: int, j: int|
                0 <= i < self.intents().len() && 0 <= j < self.intents()[i].examples@.len()
                    ==> call_requires(similarity, (&#[trigger] self.intents()[i].examples@[j],)),
        ensures
            exists|scores: Seq<Seq<u32>>|
                {
                    &&& #[trigger] scored_by(self.intents(), similarity, scores)
                    &&& match verdict(self.intents(), closest(scores)) {
                        Ok(id) => intent matches Ok(found) && *found == id,
                        Err(error) => intent == Err::<&T, _>(error),
                    }
                    &&& intent is Ok ==> (closest(scores) matches Some((_, score)) && confident(
                        score,
                    ))
                },
    {
        let mut table: Vec<Vec<u32>> = Vec::new();
        let mut i: usize = 0;
        while i < self.intents.len()
            invariant
                i <= self.intents@.len(),
                table@.len() == i,
                forall|i: int, j: int|
                    0 <= i < self.intents().len() && 0 <= j < self.intents()[i].examples@.len()
                        ==> call_requires(
                        similarity,
                        (&#[trigger] self.intents()[i].examples@[j],),
                    ),
                forall|k: int|
                    0 <= k < i ==> (#[trigger] table@[k])@.len() == self.intents@[k].examples@.len(),
                forall|k: int, j: int|
                    0 <= k < i && 0 <= j < self.intents@[k].examples@.len() ==> call_ensures(
                        similarity,
                        (&self.intents@[k].examples@[j],),
                        #[trigger] table@[k]@[j],
                    ),
            decreases self.intents@.len() - i,
        {
            let examples = &self.intents[i].examples;
            let mut row: Vec<u32> = Vec::new();
            let mut j: usize = 0;
            while j < examples.len()
                invariant
                    i < self.intents@.len(),
                    *examples == self.intents@[i as int].examples,
                    j <= examples@.len(),
                    row@.len() == j,
                    forall|i: int, j: int|
                        0 <= i < self.intents().len() && 0 <= j
                            < self.intents()[i].examples@.len() ==> call_requires(
                            similarity,
                            (&#[trigger] self.intents()[i].examples@[j],),
                        ),
                    forall|k: int|
                        0 <= k < j ==> call_ensures(
                            similarity,
                            (&examples@[k],),
                            #[trigger] row@[k],
                        ),
                decreases examples@.len() - j,
            {
                let example = &examples[j];
                assert(*example == self.intents()[i as int].examples@[j as int]);
                let score = similarity(example);
                row.push(score);
                j = j + 1;
            }
            table.push(row);
            i = i + 1;
        }
        let intent = self.classify(&table);
        proof {
            let scores = rows(table@);
            assert(scored_by(self.intents(), similarity, scores)) by {
                assert forall|i: int| 0 <= i < self.intents().len() implies (#[trigger] scores[i]).len()
                    == self.intents()[i].examples@.len() by {
                    assert(table@[i]@.len() == self.intents@[i].examples@.len());
                }
                assert forall|i: int, j: int|
                    0 <= i < self.intents().len() && 0 <= j
                        < self.intents()[i].examples@.len() implies call_ensures(
                    similarity,
                    (&self.intents()[i].examples@[j],),
                    #[trigger] scores[i][j],
                ) by {
                    assert(scores[i][j] == table@[i]@[j]);
                }
            }
        }
        intent
    }
}

/// Whether every similarity of `scores` is a number.
pub open spec fn all_numbers(scores: Seq<Seq<u32>>) -> bool {
    forall|i: int, j: int|
        0 <= i < scores.len() && 0 <= j < scores[i].len() ==> !is_nan(#[trigger] scores[i][j])
}

/// What a scan of one intent's examples leaves as the best: the best from
/// before, or an example of that intent; and none only where there was none
/// before and the intent has no example.
pub proof fn lemma_after_intent(best: Option<Candidate>, owner: int, scores: Seq<u32>)
    ensures
        after_intent(best, owner, scores) is None <==> best is None && scores.len() == 0,
        after_intent(best, owner, scores) matches Some((o, s)) ==> best == Some((o, s)) || (o
            == owner && exists|j: int| 0 <= j < scores.len() && #[trigger] scores[j] == s),
    decreases scores.len(),
{
    if scores.len() > 0 {
        lemma_after_intent(best, owner, scores.drop_last());
        let earlier = after_intent(best, owner, scores.drop_last());
        match after_intent(best, owner, scores) {
            Some((o, s)) => {
                if Some((o, s)) == earlier {
                    if best != Some((o, s)) {
                        let j = choose|j: int|
                            0 <= j < scores.drop_last().len() && #[trigger] scores.drop_last()[j]
                                == s;
                        assert(scores[j] == s);
                    }
                } else {
                    assert(scores[scores.len() - 1] == s);
                }
            },
            None => {},
        }
    }
}

/// The best example is an example: its intent is one of the intents, and its
/// similarity is that of one of the examples of that intent. There is none
/// exactly where no intent has an example.
pub proof fn lemma_closest_is_an_example(scores: Seq<Seq<u32>>)
    ensures
        closest(scores) is None <==> forall|i: int|
            0 <= i < scores.len() ==> (#[trigger] scores[i]).len() == 0,
        closest(scores) matches Some((owner, score)) ==> 0 <= owner < scores.len() && exists|
            j: int,
        | 0 <= j < scores[owner].len() && #[trigger] scores[owner][j] == score,
    decreases scores.len(),
{
    if scores.len() > 0 {
        let earlier = scores.drop_last();
        lemma_closest_is_an_example(earlier);
        lemma_after_intent(closest(earlier), scores.len() - 1, scores.last());
        assert forall|i: int| 0 <= i < earlier.len() implies earlier[i] == scores[i] by {}
        if closest(scores) is None {
            assert forall|i: int| 0 <= i < scores.len() implies (#[trigger] scores[i]).len()
                == 0 by {
                if i < earlier.len() {
                    assert(earlier[i].len() == 0);
                }
            }
        } else {
            if closest(earlier) is None {
                assert(scores.last().len() > 0);
                assert(scores[scores.len() - 1].len() > 0);
            } else {
                let i = choose|i: int| 0 <= i < earlier.len() && (#[trigger] earlier[i]).len() != 0;
                assert(scores[i].len() != 0);
            }
            let (owner, score) = closest(scores)->Some_0;
            if closest(earlier) == Some((owner, score)) {
                let j = choose|j: int|
                    0 <= j < earlier[owner].len() && #[trigger] earlier[owner][j] == score;
                assert(scores[owner][j] == score);
            }
        }
    }
}

/// Among numbers, a scan of one intent's examples leaves a best that no
/// example of the intent exceeds, and that stays the one from before unless
/// an example of the intent exceeds that one.
pub proof fn lemma_after_intent_is_greatest(best: Option<Candidate>, owner: int, scores: Seq<u32>)
    requires
        forall|j: int| 0 <= j < scores.len() ==> !is_nan(#[trigger] scores[j]),
        best matches Some((_, s)) ==> !is_nan(s),
        scores.len() > 0 || best is Some,
    ensures
        after_intent(best, owner, scores) matches Some((o, s)) && !is_nan(s) && (forall|j: int|
            0 <= j < scores.len() ==> order_key(#[trigger] scores[j]) <= order_key(s)) && (
        best matches Some((_, before)) ==> order_key(before) <= order_key(s) && (Some((o, s))
            != best ==> order_key(before) < order_key(s))),
    decreases scores.len(),
{
    if scores.len() > 0 {
        let earlier = scores.drop_last();
        if earlier.len() > 0 || best is Some {
            lemma_after_intent_is_greatest(best, owner, earlier);
        }
        let (o, s) = after_intent(best, owner, scores)->Some_0;
        assert forall|j: int| 0 <= j < scores.len() implies order_key(#[trigger] scores[j])
            <= order_key(s) by {
            if j < earlier.len() {
                assert(earlier[j] == scores[j]);
            }
        }
    }
}

/// Among numbers the best example has the greatest similarity of all, and no
/// example of an earlier intent has as great a one: of equal similarities
/// the earliest wins.
pub proof fn lemma_closest_is_first_greatest(scores: Seq<Seq<u32>>)
    requires
        all_numbers(scores),
    ensures
        closest(scores) matches Some((owner, score)) ==> {
            &&& forall|i: int, j: int|
                0 <= i < scores.len() && 0 <= j < scores[i].len() ==> order_key(
                    #[trigger] scores[i][j],
                ) <= order_key(score)
            &&& forall|i: int, j: int|
                0 <= i < owner && 0 <= j < scores[i].len() ==> order_key(#[trigger] scores[i][j])
                    < order_key(score)
        },
    decreases scores.len(),
{
    if scores.len() > 0 {
        let earlier = scores.drop_last();
        let last = scores.len() - 1;
        assert forall|i: int| 0 <= i < earlier.len() implies earlier[i] == scores[i] by {}
        assert(all_numbers(earlier)) by {
            assert forall|i: int, j: int|
                0 <= i < earlier.len() && 0 <= j < earlier[i].len() implies !is_nan(
                #[trigger] earlier[i][j],
            ) by {
                assert(!is_nan(scores[i][j]));
            }
        }
        lemma_closest_is_first_greatest(earlier);
        lemma_closest_is_an_example(earlier);
        lemma_closest_is_an_example(scores);
        if closest(scores) is Some {
            let (owner, score) = closest(scores)->Some_0;
            let before = closest(earlier);
            assert forall|j: int| 0 <= j < scores.last().len() implies !is_nan(
                #[trigger] scores.last()[j],
            ) by {
                assert(!is_nan(scores[last][j]));
            }
            if before is Some {
                let (o, s) = before->Some_0;
                let w = choose|j: int| 0 <= j < earlier[o].len() && #[trigger] earlier[o][j] == s;
                assert(!is_nan(scores[o][w]));
            }
            lemma_after_intent_is_greatest(before, last, scores.last());
            lemma_after_intent(before, last, scores.last());
            assert forall|i: int, j: int|
                0 <= i < scores.len() && 0 <= j < scores[i].len() implies order_key(
                #[trigger] scores[i][j],
            ) <= order_key(score) by {
                if i < last {
                    assert(earlier[i][j] == scores[i][j]);
                } else {
                    assert(scores.last()[j] == scores[i][j]);
                }
            }
            assert forall|i: int, j: int|
                0 <= i < owner && 0 <= j < scores[i].len() implies order_key(
                #[trigger] scores[i][j],
            ) < order_key(score) by {
                assert(earlier[i][j] == scores[i][j]);
            }
        }
    }
}

} // verus!

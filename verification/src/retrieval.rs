//! Search hits, the results that survive relevance filtering and decoding,
//! and the context text rendered from them.

use vstd::prelude::*;
use crate::errors::{Error, ErrorKind, ErrorView};
use crate::payload::{
    as_text, field, metadata_of, text_of, DocumentMetadata, MetadataView, Payload, ValueView,
};
use crate::score::{two_decimals, Score};
use crate::text::join;

verus! {

/// One hit of a similarity search, as the vector store returned it.
#[derive(Debug)]
pub struct SearchHit {
    pub score: Score,
    pub payload: Payload,
}

/// The mathematical content of a [`SearchHit`].
pub struct SearchHitView {
    pub score: Score,
    pub payload: Seq<(Seq<char>, ValueView)>,
}

impl View for SearchHit {
    type V = SearchHitView;

    open spec fn view(&self) -> SearchHitView {
        SearchHitView { score: self.score, payload: self.payload@ }
    }
}

/// A stored chunk found by a search: its text, its score and its metadata.
#[derive(Debug)]
pub struct SearchResult {
    pub text: String,
    pub score: Score,
    pub metadata: DocumentMetadata,
}

/// The mathematical content of a [`SearchResult`].
pub struct SearchResultView {
    pub text: Seq<char>,
    pub score: Score,
    pub metadata: MetadataView,
}

impl View for SearchResult {
    type V = SearchResultView;

    open spec fn view(&self) -> SearchResultView {
        SearchResultView { text: self.text@, score: self.score, metadata: self.metadata@ }
    }
}

/// The contents of a list of hits.
pub open spec fn hits_view(hits: Seq<SearchHit>) -> Seq<SearchHitView> {
    Seq::new(hits.len(), |i: int| hits[i]@)
}

/// The contents of a list of results.
pub open spec fn results_view(results: Seq<SearchResult>) -> Seq<SearchResultView> {
    Seq::new(results.len(), |i: int| results[i]@)
}

/// The metadata stored in a payload under `metadata`, if it holds any.
pub open spec fn stored_metadata(payload: Seq<(Seq<char>, ValueView)>) -> Option<MetadataView> {
    match field(payload, "metadata"@) {
        Some(value) => metadata_of(value),
        None => None,
    }
}

/// The chunk that a hit holds, or why it holds none: the metadata is read
/// first, and the text under `doc` after it.
pub open spec fn decoded(hit: SearchHitView) -> Result<SearchResultView, ErrorView> {
    match stored_metadata(hit.payload) {
        None => Err(
            ErrorView {
                kind: ErrorKind::PayloadDecode,
                message: "Payload holds no chunk metadata"@,
            },
        ),
        Some(metadata) => match as_text(field(hit.payload, "doc"@)) {
            None => Err(
                ErrorView {
                    kind: ErrorKind::PayloadDecode,
                    message: "Payload holds no chunk text"@,
                },
            ),
            Some(text) => Ok(SearchResultView { text, score: hit.score, metadata }),
        },
    }
}

/// Whether a hit survives: its score reaches the threshold and its payload
/// holds a chunk.
pub open spec fn kept(hit: SearchHitView, threshold: Score) -> bool {
    hit.score.reaches(threshold) && decoded(hit) is Ok
}

/// The results of a search response: the chunks of the hits that survive, in
/// the order of the response.
pub open spec fn retrieved(hits: Seq<SearchHitView>, threshold: Score) -> Seq<SearchResultView> {
    hits.filter(|hit: SearchHitView| kept(hit, threshold)).map_values(
        |hit: SearchHitView| decoded(hit)->Ok_0,
    )
}

/// The two lines that present one result.
pub open spec fn entry(result: SearchResultView) -> Seq<char> {
    "Content (relevance score: "@ + two_decimals(result.score.millionths as int) + "): "@
        + result.text + "\nSource: "@ + result.metadata.source
}

/// The entries of the results, in order.
pub open spec fn entries(results: Seq<SearchResultView>) -> Seq<Seq<char>> {
    results.map_values(|result: SearchResultView| entry(result))
}

/// The context text: the entries of the results with a blank line between
/// neighbours; empty where there is no result.
pub open spec fn context_of(results: Seq<SearchResultView>) -> Seq<char> {
    join(entries(results), "\n\n"@)
}

/// One more hit adds its chunk to the results where it survives, and leaves
/// them alone where it does not.
pub proof fn lemma_retrieved_push(hits: Seq<SearchHitView>, hit: SearchHitView, threshold: Score)
    ensures
        retrieved(hits.push(hit), threshold) == if kept(hit, threshold) {
            retrieved(hits, threshold).push(decoded(hit)->Ok_0)
        } else {
            retrieved(hits, threshold)
        },
{
    let keep = |h: SearchHitView| kept(h, threshold);
    let chunk = |h: SearchHitView| decoded(h)->Ok_0;
    reveal(Seq::filter);
    assert(hits.push(hit).drop_last() =~= hits);
    if kept(hit, threshold) {
        assert(hits.push(hit).filter(keep) == hits.filter(keep).push(hit));
        assert(hits.filter(keep).push(hit).map_values(chunk) =~= hits.filter(keep).map_values(
            chunk,
        ).push(chunk(hit)));
    }
}

/// Nothing is retrieved from an empty response.
pub proof fn lemma_retrieved_empty(threshold: Score)
    ensures
        retrieved(Seq::empty(), threshold) == Seq::<SearchResultView>::empty(),
{
    reveal(Seq::filter);
    let keep = |h: SearchHitView| kept(h, threshold);
    assert(Seq::<SearchHitView>::empty().filter(keep) =~= Seq::empty());
    assert(retrieved(Seq::empty(), threshold) =~= Seq::<SearchResultView>::empty());
}

/// The results of two responses placed end to end are the results of the
/// first followed by those of the second.
pub proof fn lemma_retrieved_add(a: Seq<SearchHitView>, b: Seq<SearchHitView>, threshold: Score)
    ensures
        retrieved(a + b, threshold) == retrieved(a, threshold) + retrieved(b, threshold),
    decreases b.len(),
{
    if b.len() == 0 {
        lemma_retrieved_empty(threshold);
        assert(a + b =~= a);
        assert(b =~= Seq::empty());
        assert(retrieved(a, threshold) + Seq::<SearchResultView>::empty() =~= retrieved(
            a,
            threshold,
        ));
    } else {
        let front = b.drop_last();
        let last = b.last();
        lemma_retrieved_add(a, front, threshold);
        assert(a + b =~= (a + front).push(last));
        assert(b =~= front.push(last));
        lemma_retrieved_push(a + front, last, threshold);
        lemma_retrieved_push(front, last, threshold);
        if kept(last, threshold) {
            assert((retrieved(a, threshold) + retrieved(front, threshold)).push(
                decoded(last)->Ok_0,
            ) =~= retrieved(a, threshold) + retrieved(front, threshold).push(decoded(last)->Ok_0));
        }
    }
}

/// Every result comes from a hit of the response that reaches the threshold,
/// and carries that hit's score: no result is below the threshold.
pub proof fn lemma_results_reach_threshold(hits: Seq<SearchHitView>, threshold: Score, j: int)
    requires
        0 <= j < retrieved(hits, threshold).len(),
    ensures
        retrieved(hits, threshold)[j].score.reaches(threshold),
        exists|i: int|
            0 <= i < hits.len() && kept(#[trigger] hits[i], threshold) && decoded(hits[i]) == Ok::<
                SearchResultView,
                ErrorView,
            >(retrieved(hits, threshold)[j]),
    decreases hits.len(),
{
    lemma_retrieved_empty(threshold);
    if hits.len() > 0 {
        let front = hits.drop_last();
        let last = hits.last();
        assert(hits =~= front.push(last));
        lemma_retrieved_push(front, last, threshold);
        if j < retrieved(front, threshold).len() {
            lemma_results_reach_threshold(front, threshold, j);
            let i = choose|i: int|
                0 <= i < front.len() && kept(#[trigger] front[i], threshold) && decoded(front[i])
                    == Ok::<SearchResultView, ErrorView>(retrieved(front, threshold)[j]);
            assert(hits[i] == front[i]);
        } else {
            assert(kept(hits[hits.len() - 1], threshold));
        }
    }
}

/// A hit that does not survive, wherever it stands in the response, changes
/// nothing: the results are those of the hits before it followed by those of
/// the hits after it. So a hit below the threshold never shows, and a hit
/// whose payload cannot be decoded is dropped without harm to the others.
pub proof fn lemma_dropped_hit_changes_nothing(
    before: Seq<SearchHitView>,
    hit: SearchHitView,
    after: Seq<SearchHitView>,
    threshold: Score,
)
    requires
        !hit.score.reaches(threshold) || decoded(hit) is Err,
    ensures
        retrieved(before.push(hit) + after, threshold) == retrieved(before + after, threshold),
        retrieval_context(before.push(hit) + after, threshold) == retrieval_context(
            before + after,
            threshold,
        ),
{
    lemma_retrieved_add(before.push(hit), after, threshold);
    lemma_retrieved_add(before, after, threshold);
    lemma_retrieved_push(before, hit, threshold);
}

/// A hit that survives shows in the results at its place among the
/// survivors, with its own text, score and metadata.
pub proof fn lemma_kept_hit_is_retrieved(
    before: Seq<SearchHitView>,
    hit: SearchHitView,
    after: Seq<SearchHitView>,
    threshold: Score,
)
    requires
        kept(hit, threshold),
    ensures
        retrieved(before.push(hit) + after, threshold) == retrieved(before, threshold).push(
            decoded(hit)->Ok_0,
        ) + retrieved(after, threshold),
{
    lemma_retrieved_add(before.push(hit), after, threshold);
    lemma_retrieved_push(before, hit, threshold);
}

impl SearchHit {
    /// Reads the chunk that this hit holds.
    pub fn decode(self) -> (result: Result<SearchResult, Error>)
        ensures
            match result {
                Ok(r) => decoded(self@) == Ok::<SearchResultView, ErrorView>(r@),
                Err(e) => decoded(self@) == Err::<SearchResultView, ErrorView>(e@),
            },
    {
        let metadata = match self.payload.get("metadata") {
            Some(value) => DocumentMetadata::decode(value),
            None => None,
        };
        match metadata {
            None => Err(Error::new(ErrorKind::PayloadDecode, "Payload holds no chunk metadata")),
            Some(metadata) => match text_of(self.payload.get("doc")) {
                None => Err(Error::new(ErrorKind::PayloadDecode, "Payload holds no chunk text")),
                Some(text) => Ok(SearchResult { text, score: self.score, metadata }),
            },
        }
    }
}

/// The results of a search response: the chunks of the hits whose score
/// reaches `threshold` and whose payload holds a chunk, in the order of the
/// response. The other hits are dropped.
pub fn select(hits: Vec<SearchHit>, threshold: Score) -> (results: Vec<SearchResult>)
    ensures
        results_view(results@) == retrieved(hits_view(hits@), threshold),
{
    let ghost all = hits_view(hits@);
    let mut results: Vec<SearchResult> = Vec::new();
    proof {
        lemma_retrieved_empty(threshold);
        assert(all.take(0) =~= Seq::empty());
        assert(results_view(results@) =~= Seq::empty());
    }
    for hit in it: hits
        invariant
            it.seq() == hits@,
            all == hits_view(hits@),
            results_view(results@) == retrieved(all.take(it.index() as int), threshold),
    {
        proof {
            assert(hit == hits@[it.index() as int]);
            assert(all.take(it.index() + 1) =~= all.take(it.index() as int).push(hit@));
            lemma_retrieved_push(all.take(it.index() as int), hit@, threshold);
        }
        let ghost before = results_view(results@);
        if hit.score.meets(&threshold) {
            match hit.decode() {
                Ok(result) => {
                    let ghost r = result@;
                    results.push(result);
                    assert(results_view(results@) =~= before.push(r));
                },
                Err(_) => {},
            }
        }
    }
    assert(all.take(hits@.len() as int) =~= all);
    results
}

/// The context text of the results: for each result the line
/// `Content (relevance score: S): T`, with the score `S` to two decimals and
/// the text `T`, and the line `Source: ` with its source; a blank line between
/// neighbours. Empty where there is no result.
pub fn render_context(results: &Vec<SearchResult>) -> (context: String)
    ensures
        context@ == context_of(results_view(results@)),
{
    let ghost all = results_view(results@);
    let mut context = String::new();
    let mut i: usize = 0;
    assert(entries(all.take(0)) =~= Seq::empty());
    assert(context@ =~= join(entries(all.take(0)), "\n\n"@));
    while i < results.len()
        invariant
            i <= results.len(),
            all == results_view(results@),
            context@ == join(entries(all.take(i as int)), "\n\n"@),
        decreases results.len() - i,
    {
        let ghost before = context@;
        let ghost done = entries(all.take(i as int));
        if i > 0 {
            context.append("\n\n");
        }
        let ghost start = context@;
        let result = &results[i];
        context.append("Content (relevance score: ");
        result.score.push_two_decimals(&mut context);
        context.append("): ");
        context.append(result.text.as_str());
        context.append("\nSource: ");
        context.append(result.metadata.source.as_str());
        proof {
            assert(context@ =~= start + entry(result@));
            assert(all.take(i + 1) =~= all.take(i as int).push(result@));
            assert(entries(all.take(i + 1)) =~= done.push(entry(result@)));
            crate::text::lemma_join_push(done, "\n\n"@, entry(result@));
            if i > 0 {
                assert(context@ =~= before + "\n\n"@ + entry(result@));
            } else {
                assert(before =~= Seq::<char>::empty());
                assert(context@ =~= entry(result@));
            }
        }
        i = i + 1;
    }
    assert(all.take(i as int) =~= all);
    context
}

/// The context text of a search response.
pub open spec fn retrieval_context(hits: Seq<SearchHitView>, threshold: Score) -> Seq<char> {
    context_of(retrieved(hits, threshold))
}

/// An empty response, or one of which no hit survives, gives the empty
/// context.
pub proof fn lemma_nothing_kept_gives_empty_context(hits: Seq<SearchHitView>, threshold: Score)
    requires
        forall|i: int| 0 <= i < hits.len() ==> !kept(#[trigger] hits[i], threshold),
    ensures
        retrieved(hits, threshold).len() == 0,
        retrieval_context(hits, threshold) == Seq::<char>::empty(),
    decreases hits.len(),
{
    lemma_retrieved_empty(threshold);
    if hits.len() > 0 {
        let front = hits.drop_last();
        assert(hits =~= front.push(hits.last()));
        assert forall|i: int| 0 <= i < front.len() implies !kept(
            #[trigger] front[i],
            threshold,
        ) by {
            assert(front[i] == hits[i]);
        }
        lemma_nothing_kept_gives_empty_context(front, threshold);
        assert(!kept(hits[hits.len() - 1], threshold));
        lemma_retrieved_push(front, hits.last(), threshold);
    }
    assert(entries(retrieved(hits, threshold)) =~= Seq::empty());
}

} // verus!

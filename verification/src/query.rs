//! The read path: turning raw similarity hits into ranked results, and a
//! query plus retrieved content into the grounded completion request.
//!
//! Similarity scores arrive as fixed-point numbers in millionths, converted
//! at the transport edge. Results are ranked by non-increasing score before
//! they are returned, whatever order the hits arrived in.

use vstd::prelude::*;
use vstd::seq_lib::group_to_multiset_ensures;

use crate::openai::ChatMessage;
use crate::point::dec_digits;
use crate::point::u64_to_dec;

verus! {

/// A search request as the route layer hands it over.
pub struct SearchRequest {
    pub query: String,
    pub limit: Option<u64>,
}

impl SearchRequest {
    /// How many results are asked for: the given limit, or five.
    pub fn effective_limit(&self) -> (r: u64)
        ensures
            r == match self.limit {
                Option::Some(l) => l,
                Option::None => 5u64,
            },
    {
        match self.limit {
            Option::Some(l) => l,
            Option::None => 5,
        }
    }
}

/// One hit as the vector index returned it, fields decoded defensively from
/// its attribute bag. The score is in millionths.
pub struct RawHit {
    pub score_micro: i64,
    pub task_id: Option<i64>,
    pub file_name: Option<String>,
    pub content_snippet: Option<String>,
}

/// The model of a raw hit.
pub struct RawHitModel {
    pub score_micro: i64,
    pub task_id: Option<i64>,
    pub file_name: Option<Seq<char>>,
    pub content_snippet: Option<Seq<char>>,
}

impl View for RawHit {
    type V = RawHitModel;

    open spec fn view(&self) -> RawHitModel {
        RawHitModel {
            score_micro: self.score_micro,
            task_id: self.task_id,
            file_name: match self.file_name {
                Option::Some(ref n) => Option::Some(n@),
                Option::None => Option::None,
            },
            content_snippet: match self.content_snippet {
                Option::Some(ref s) => Option::Some(s@),
                Option::None => Option::None,
            },
        }
    }
}

/// One search result returned to the caller. The score is in millionths.
pub struct SearchResult {
    pub score_micro: i64,
    pub task_id: u64,
    pub file_name: String,
    pub content_snippet: String,
}

/// The model of a search result.
pub struct SearchResultModel {
    pub score_micro: i64,
    pub task_id: u64,
    pub file_name: Seq<char>,
    pub content_snippet: Seq<char>,
}

impl View for SearchResult {
    type V = SearchResultModel;

    open spec fn view(&self) -> SearchResultModel {
        SearchResultModel {
            score_micro: self.score_micro,
            task_id: self.task_id,
            file_name: self.file_name@,
            content_snippet: self.content_snippet@,
        }
    }
}

/// How a raw hit reads as a result: a missing task identifier becomes zero,
/// a missing file name `unknown`, a missing snippet empty.
pub open spec fn result_of_hit(h: RawHitModel) -> SearchResultModel {
    SearchResultModel {
        score_micro: h.score_micro,
        task_id: match h.task_id {
            Option::Some(t) => t as u64,
            Option::None => 0u64,
        },
        file_name: match h.file_name {
            Option::Some(n) => n,
            Option::None => "unknown"@,
        },
        content_snippet: match h.content_snippet {
            Option::Some(s) => s,
            Option::None => Seq::empty(),
        },
    }
}

/// The results the given hits read as, in arrival order.
pub open spec fn hit_results(v: Seq<RawHit>) -> Seq<SearchResultModel> {
    v.map_values(|h: RawHit| result_of_hit(h@))
}

/// The models of a vector of results.
pub open spec fn result_views(v: Seq<SearchResult>) -> Seq<SearchResultModel> {
    v.map_values(|r: SearchResult| r@)
}

/// Decode one raw hit into a result.
pub fn hit_to_result(h: &RawHit) -> (r: SearchResult)
    ensures
        r@ == result_of_hit(h@),
{
    SearchResult {
        score_micro: h.score_micro,
        task_id: match h.task_id {
            Option::Some(t) => #[verifier::truncate] (t as u64),
            Option::None => 0,
        },
        file_name: match &h.file_name {
            Option::Some(n) => n.clone(),
            Option::None => String::from_str("unknown"),
        },
        content_snippet: match &h.content_snippet {
            Option::Some(s) => s.clone(),
            Option::None => String::new(),
        },
    }
}

/// Scores never increase along the sequence.
pub open spec fn scores_desc(s: Seq<SearchResultModel>) -> bool {
    forall|i: int, j: int| 0 <= i <= j < s.len() ==> s[i].score_micro >= s[j].score_micro
}

/// Decode and rank hits: the same results the hits read as, ordered by
/// non-increasing score.
pub fn rank_hits(hits: &Vec<RawHit>) -> (r: Vec<SearchResult>)
    ensures
        r@.len() == hits@.len(),
        scores_desc(result_views(r@)),
        result_views(r@).to_multiset() == hit_results(hits@).to_multiset(),
{
    broadcast use group_to_multiset_ensures;

    let n = hits.len();
    let mut out: Vec<SearchResult> = Vec::new();
    let mut i: usize = 0;
    proof {
        assert(hit_results(hits@.take(0)) =~= Seq::<SearchResultModel>::empty());
        assert(result_views(out@) =~= Seq::<SearchResultModel>::empty());
    }
    while i < n
        invariant
            i <= n == hits@.len(),
            out@.len() == i,
            scores_desc(result_views(out@)),
            result_views(out@).to_multiset() == hit_results(hits@.take(i as int)).to_multiset(),
        decreases n - i,
    {
        broadcast use group_to_multiset_ensures;

        let v = hit_to_result(&hits[i]);
        let mut j: usize = 0;
        while j < out.len() && out[j].score_micro >= v.score_micro
            invariant
                j <= out@.len(),
                v@ == result_of_hit(hits@[i as int]@),
                forall|k: int|
                    0 <= k < j ==> (#[trigger] result_views(out@)[k]).score_micro
                        >= v@.score_micro,
            decreases out@.len() - j,
        {
            j += 1;
        }
        let ghost prev = out@;
        out.insert(j, v);
        proof {
            assert(out@ == prev.insert(j as int, v));
            assert(result_views(out@) =~= result_views(prev).insert(j as int, v@));
            lemma_insert_to_multiset(result_views(prev), v@, j as int);
            assert(hit_results(hits@.take(i as int + 1)) =~= hit_results(
                hits@.take(i as int),
            ).push(v@));
            assert(scores_desc(result_views(out@))) by {
                let cur = result_views(out@);
                let old_views = result_views(prev);
                assert(forall|k: int| 0 <= k < j ==> cur[k] == old_views[k]);
                assert(cur[j as int] == v@);
                assert(forall|k: int| j < k < cur.len() ==> cur[k] == old_views[k - 1]);
                assert(forall|k: int|
                    j <= k - 1 < old_views.len() && j < old_views.len() ==> old_views[j as int].score_micro
                        >= (#[trigger] old_views[k - 1]).score_micro);
            }
        }
        i += 1;
    }
    proof {
        assert(hits@.take(n as int) =~= hits@);
    }
    out
}

/// Inserting anywhere adds exactly one occurrence to the multiset.
proof fn lemma_insert_to_multiset(s: Seq<SearchResultModel>, v: SearchResultModel, j: int)
    requires
        0 <= j <= s.len(),
    ensures
        s.insert(j, v).to_multiset() == s.to_multiset().insert(v),
{
    broadcast use group_to_multiset_ensures;

    let t = s.insert(j, v);
    assert(t.remove(j) =~= s);
    assert(t[j] == v);
    assert(t.remove(j).to_multiset() =~= t.to_multiset().remove(v));
    assert(s.to_multiset() =~= t.to_multiset().remove(v));
    assert(t.to_multiset().contains(v)) by {
        assert(t.contains(v));
    }
    assert(t.to_multiset().remove(v).insert(v) =~= t.to_multiset());
}

/// The response body of a search: the ranked results and how many hits were
/// found.
pub struct SearchResponse {
    pub query: String,
    pub results: Vec<SearchResult>,
    pub total_found: usize,
}

/// Assemble the search response for a query from the index's raw hits:
/// every hit decoded, ranked by non-increasing score.
pub fn assemble_search_response(query: String, hits: &Vec<RawHit>) -> (r: SearchResponse)
    ensures
        r.query == query,
        r.total_found == hits@.len(),
        r.results@.len() == hits@.len(),
        scores_desc(result_views(r.results@)),
        result_views(r.results@).to_multiset() == hit_results(hits@).to_multiset(),
{
    let results = rank_hits(hits);
    let total_found = hits.len();
    SearchResponse { query, results, total_found }
}

/// One retrieved document handed to context assembly. The score is in
/// millionths.
pub struct RetrievedFile {
    pub filename: String,
    pub score_micro: i64,
    pub chunk_id: Option<i32>,
    pub content: String,
}

/// The model of a retrieved document.
pub struct RetrievedFileModel {
    pub filename: Seq<char>,
    pub score_micro: i64,
    pub chunk_id: Option<i32>,
    pub content: Seq<char>,
}

impl View for RetrievedFile {
    type V = RetrievedFileModel;

    open spec fn view(&self) -> RetrievedFileModel {
        RetrievedFileModel {
            filename: self.filename@,
            score_micro: self.score_micro,
            chunk_id: self.chunk_id,
            content: self.content@,
        }
    }
}

/// The models of a vector of retrieved documents.
pub open spec fn file_views(v: Seq<RetrievedFile>) -> Seq<RetrievedFileModel> {
    v.map_values(|f: RetrievedFile| f@)
}

/// One context block entry: the document's content tagged with its source.
pub open spec fn context_entry(ordinal: nat, f: RetrievedFileModel) -> Seq<char> {
    "[File "@ + dec_digits(ordinal) + ": "@ + f.filename + "]\n"@ + f.content + "\n\n"@
}

/// The context block from position `k` on, sources numbered from one.
pub open spec fn context_from(files: Seq<RetrievedFileModel>, k: int) -> Seq<char>
    decreases files.len() - k,
{
    if k < 0 || k >= files.len() {
        Seq::empty()
    } else {
        context_entry((k + 1) as nat, files[k]) + context_from(files, k + 1)
    }
}

/// The whole context block of the retrieved documents.
pub open spec fn context_of(files: Seq<RetrievedFileModel>) -> Seq<char> {
    context_from(files, 0)
}

/// Assemble the context block: each retrieved document's content, tagged
/// with its numbered source.
pub fn build_context(files: &Vec<RetrievedFile>) -> (r: String)
    ensures
        r@ == context_of(file_views(files@)),
{
    let ghost models = file_views(files@);
    let n = files.len();
    let mut ctx = String::new();
    let mut k: usize = 0;
    while k < n
        invariant
            k <= n == files@.len(),
            models == file_views(files@),
            ctx@ + context_from(models, k as int) == context_of(models),
        decreases n - k,
    {
        let mut entry = String::from_str("[File ");
        let ordinal = u64_to_dec((k as u64) + 1);
        entry.append(ordinal.as_str());
        entry.append(": ");
        entry.append(files[k].filename.as_str());
        entry.append("]\n");
        entry.append(files[k].content.as_str());
        entry.append("\n\n");
        proof {
            assert(entry@ =~= context_entry((k + 1) as nat, models[k as int]));
            assert((ctx@ + entry@) + context_from(models, k as int + 1) =~= ctx@ + (entry@
                + context_from(models, k as int + 1)));
        }
        ctx.append(entry.as_str());
        k += 1;
    }
    proof {
        assert(context_from(models, n as int) =~= Seq::<char>::empty());
        assert(ctx@ + Seq::<char>::empty() =~= ctx@);
    }
    ctx
}

/// The source names of the retrieved documents, in order.
pub fn collect_sources(files: &Vec<RetrievedFile>) -> (r: Vec<String>)
    ensures
        r@.len() == files@.len(),
        forall|i: int| 0 <= i < r@.len() ==> (#[trigger] r@[i])@ == files@[i].filename@,
{
    let n = files.len();
    let mut out: Vec<String> = Vec::new();
    let mut i: usize = 0;
    while i < n
        invariant
            i <= n == files@.len(),
            out@.len() == i,
            forall|k: int| 0 <= k < i ==> (#[trigger] out@[k])@ == files@[k].filename@,
        decreases n - i,
    {
        out.push(files[i].filename.clone());
        i += 1;
    }
    out
}

/// The user turn sent to the completion API: the optional custom prompt,
/// then the context block, then the query.
pub open spec fn user_content_of(
    user_prompt: Option<Seq<char>>,
    context: Seq<char>,
    query: Seq<char>,
) -> Seq<char> {
    match user_prompt {
        Option::Some(up) => up + "\n\nContext:\n"@ + context + "\n\nQuery: "@ + query,
        Option::None => "Context:\n"@ + context + "\n\nQuery: "@ + query,
    }
}

/// Assemble the conversation for the completion call: the optional system
/// instruction, then one user turn combining prompt, context and query.
pub fn assemble_messages(
    system_prompt: &Option<String>,
    user_prompt: &Option<String>,
    context: &str,
    query: &str,
) -> (r: Vec<ChatMessage>)
    ensures
        system_prompt is Some ==> r@.len() == 2 && r@[0].role@ == "system"@ && r@[0].content@
            == system_prompt->0@,
        system_prompt is None ==> r@.len() == 1,
        r@[r@.len() - 1].role@ == "user"@,
        r@[r@.len() - 1].content@ == user_content_of(
            match user_prompt {
                Option::Some(up) => Option::Some(up@),
                Option::None => Option::None,
            },
            context@,
            query@,
        ),
{
    let mut messages: Vec<ChatMessage> = Vec::new();
    match system_prompt {
        Option::Some(sp) => {
            messages.push(
                ChatMessage { role: String::from_str("system"), content: sp.clone() },
            );
        },
        Option::None => {},
    }
    let mut user_content = match user_prompt {
        Option::Some(up) => {
            let mut s = up.clone();
            s.append("\n\nContext:\n");
            s
        },
        Option::None => String::from_str("Context:\n"),
    };
    user_content.append(context);
    user_content.append("\n\nQuery: ");
    user_content.append(query);
    messages.push(ChatMessage { role: String::from_str("user"), content: user_content });
    messages
}

/// A retrieval-augmented query as the route layer hands it over.
pub struct QueryRequest {
    pub query: String,
    pub system_prompt: Option<String>,
    pub user_prompt: Option<String>,
    pub json_mode: Option<bool>,
    pub api_endpoints: Option<Vec<String>>,
}

impl QueryRequest {
    /// Whether structured-JSON output is requested; absent means no.
    pub fn effective_json_mode(&self) -> (r: bool)
        ensures
            r == match self.json_mode {
                Option::Some(b) => b,
                Option::None => false,
            },
    {
        match self.json_mode {
            Option::Some(b) => b,
            Option::None => false,
        }
    }
}

/// The answer returned for a query: the generated text, the source names,
/// and the retrieved documents with their scores.
pub struct QueryResponse {
    pub response: String,
    pub sources: Vec<String>,
    pub retrieved_files: Vec<RetrievedFile>,
}

/// Assemble the query response from the generated text and the retrieved
/// documents: the text as is, and one source name per document, in order.
pub fn compose_query_response(ai_response: String, files: Vec<RetrievedFile>) -> (r: QueryResponse)
    ensures
        r.response == ai_response,
        r.retrieved_files == files,
        r.sources@.len() == files@.len(),
        forall|i: int| 0 <= i < r.sources@.len() ==> (#[trigger] r.sources@[i])@
            == files@[i].filename@,
{
    let sources = collect_sources(&files);
    QueryResponse { response: ai_response, sources, retrieved_files: files }
}

} // verus!

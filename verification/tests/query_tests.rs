use rag_core::query::{
    assemble_messages, assemble_search_response, build_context, compose_query_response,
    hit_to_result, rank_hits, QueryRequest, RawHit, RetrievedFile, SearchRequest,
};

fn hit(score_micro: i64, name: &str, snippet: &str) -> RawHit {
    RawHit {
        score_micro,
        task_id: Some(1),
        file_name: Some(String::from(name)),
        content_snippet: Some(String::from(snippet)),
    }
}

#[test]
fn missing_hit_fields_get_defaults() {
    let r = hit_to_result(&RawHit {
        score_micro: 5,
        task_id: None,
        file_name: None,
        content_snippet: None,
    });
    assert_eq!(r.task_id, 0);
    assert_eq!(r.file_name, "unknown");
    assert_eq!(r.content_snippet, "");
    assert_eq!(r.score_micro, 5);
}

#[test]
fn results_are_ranked_by_non_increasing_score() {
    let hits = vec![
        hit(300_000, "b.txt", "beta"),
        hit(900_000, "a.txt", "alpha"),
        hit(600_000, "c.txt", "gamma"),
    ];
    let ranked = rank_hits(&hits);
    let scores: Vec<i64> = ranked.iter().map(|r| r.score_micro).collect();
    assert_eq!(scores, vec![900_000, 600_000, 300_000]);
    let names: Vec<&str> = ranked.iter().map(|r| r.file_name.as_str()).collect();
    assert_eq!(names, vec!["a.txt", "c.txt", "b.txt"]);
}

#[test]
fn ranking_keeps_every_hit() {
    let hits = vec![
        hit(100, "a", "1"),
        hit(100, "b", "2"),
        hit(50, "c", "3"),
        hit(200, "d", "4"),
    ];
    let response = assemble_search_response(String::from("q"), &hits);
    assert_eq!(response.total_found, 4);
    assert_eq!(response.results.len(), 4);
    for w in response.results.windows(2) {
        assert!(w[0].score_micro >= w[1].score_micro);
    }
}

#[test]
fn refund_chunk_outranks_shipping_chunk() {
    // Two stored chunks, one about refunds and one about shipping; for a
    // query about getting money back the refunds chunk scores higher and
    // must come first.
    let hits = vec![
        hit(310_000, "shipping.txt", "we ship worldwide within five days"),
        hit(870_000, "refunds.txt", "refunds are issued to the original payment method"),
    ];
    let response =
        assemble_search_response(String::from("how do I get my money back"), &hits);
    assert_eq!(response.query, "how do I get my money back");
    assert_eq!(response.results[0].file_name, "refunds.txt");
    assert!(response.results[0].score_micro > response.results[1].score_micro);
}

#[test]
fn search_limit_defaults_to_five() {
    let req = SearchRequest { query: String::from("q"), limit: None };
    assert_eq!(req.effective_limit(), 5);
    let req = SearchRequest { query: String::from("q"), limit: Some(12) };
    assert_eq!(req.effective_limit(), 12);
}

#[test]
fn context_tags_each_source() {
    let files = vec![
        RetrievedFile {
            filename: String::from("a.txt"),
            score_micro: 900_000,
            chunk_id: Some(1),
            content: String::from("alpha"),
        },
        RetrievedFile {
            filename: String::from("b.txt"),
            score_micro: 500_000,
            chunk_id: None,
            content: String::from("beta"),
        },
    ];
    let ctx = build_context(&files);
    assert_eq!(ctx, "[File 1: a.txt]\nalpha\n\n[File 2: b.txt]\nbeta\n\n");
    assert_eq!(build_context(&vec![]), "");
}

#[test]
fn messages_include_the_optional_system_turn() {
    let msgs = assemble_messages(&Some(String::from("be brief")), &None, "CTX", "Q");
    assert_eq!(msgs.len(), 2);
    assert_eq!(msgs[0].role, "system");
    assert_eq!(msgs[0].content, "be brief");
    assert_eq!(msgs[1].role, "user");
    assert_eq!(msgs[1].content, "Context:\nCTX\n\nQuery: Q");
}

#[test]
fn messages_prepend_the_custom_user_prompt() {
    let msgs = assemble_messages(&None, &Some(String::from("answer in French")), "CTX", "Q");
    assert_eq!(msgs.len(), 1);
    assert_eq!(msgs[0].role, "user");
    assert_eq!(msgs[0].content, "answer in French\n\nContext:\nCTX\n\nQuery: Q");
}

#[test]
fn json_mode_defaults_to_off() {
    let req = QueryRequest {
        query: String::from("q"),
        system_prompt: None,
        user_prompt: None,
        json_mode: None,
        api_endpoints: None,
    };
    assert!(!req.effective_json_mode());
}

#[test]
fn query_response_lists_one_source_per_file() {
    let files = vec![
        RetrievedFile {
            filename: String::from("a.txt"),
            score_micro: 1,
            chunk_id: None,
            content: String::from("x"),
        },
        RetrievedFile {
            filename: String::from("b.txt"),
            score_micro: 2,
            chunk_id: None,
            content: String::from("y"),
        },
    ];
    let resp = compose_query_response(String::from("the answer"), files);
    assert_eq!(resp.response, "the answer");
    assert_eq!(resp.sources, vec!["a.txt", "b.txt"]);
    assert_eq!(resp.retrieved_files.len(), 2);
}

//! Vector points and their content-addressed identifiers.
//!
//! A point is the unit stored in the vector index: an identifier, an
//! embedding (attached outside this library), and an attribute bag. The
//! identifier is derived deterministically from a stable content key — the
//! file name, or the file name plus a chunk index for multi-chunk documents —
//! so re-ingesting the same source overwrites the same point instead of
//! creating a duplicate.

use vstd::prelude::*;

verus! {

/// The character a decimal digit prints as.
pub open spec fn digit_char(d: nat) -> char {
    if d == 0 {
        '0'
    } else if d == 1 {
        '1'
    } else if d == 2 {
        '2'
    } else if d == 3 {
        '3'
    } else if d == 4 {
        '4'
    } else if d == 5 {
        '5'
    } else if d == 6 {
        '6'
    } else if d == 7 {
        '7'
    } else if d == 8 {
        '8'
    } else {
        '9'
    }
}

/// The decimal representation of `n`, most significant digit first.
pub open spec fn dec_digits(n: nat) -> Seq<char>
    decreases n,
{
    if n < 10 {
        seq![digit_char(n)]
    } else {
        dec_digits(n / 10) + seq![digit_char(n % 10)]
    }
}

/// The one-character string for a single decimal digit.
fn digit_str(d: u64) -> (r: &'static str)
    requires
        d < 10,
    ensures
        r@ == seq![digit_char(d as nat)],
{
    let r: &'static str = match d {
        0 => "0",
        1 => "1",
        2 => "2",
        3 => "3",
        4 => "4",
        5 => "5",
        6 => "6",
        7 => "7",
        8 => "8",
        _ => "9",
    };
    proof {
        reveal_strlit("0");
        reveal_strlit("1");
        reveal_strlit("2");
        reveal_strlit("3");
        reveal_strlit("4");
        reveal_strlit("5");
        reveal_strlit("6");
        reveal_strlit("7");
        reveal_strlit("8");
        reveal_strlit("9");
        assert(r@ =~= seq![digit_char(d as nat)]);
    }
    r
}

/// Format `n` in decimal.
pub fn u64_to_dec(n: u64) -> (r: String)
    ensures
        r@ == dec_digits(n as nat),
    decreases n,
{
    if n < 10 {
        String::from_str(digit_str(n))
    } else {
        let mut s = u64_to_dec(n / 10);
        s.append(digit_str(n % 10));
        s
    }
}

/// The stable content key a point is addressed by: the file name alone for a
/// single-chunk document, the file name tagged with the chunk index otherwise.
pub open spec fn point_key_of(file_name: Seq<char>, chunk_index: nat, chunk_total: nat) -> Seq<
    char,
> {
    if chunk_total <= 1 {
        file_name
    } else {
        file_name + "#"@ + dec_digits(chunk_index)
    }
}

/// Build the content key for one chunk of a document.
pub fn point_key(file_name: &str, chunk_index: u64, chunk_total: u64) -> (r: String)
    ensures
        r@ == point_key_of(file_name@, chunk_index as nat, chunk_total as nat),
{
    if chunk_total <= 1 {
        String::from_str(file_name)
    } else {
        let mut s = String::from_str(file_name);
        s.append("#");
        let idx = u64_to_dec(chunk_index);
        s.append(idx.as_str());
        s
    }
}

/// The point identifier derived from a content key: a name-based hash of the
/// key into a fixed namespace, in hyphenated text form. It is a function of
/// the key alone, which is what makes re-ingestion idempotent.
pub uninterp spec fn point_id_of(key: Seq<char>) -> Seq<char>;

/// Relies on uuid's `Uuid::new_v5` in the OID namespace: the name-based
/// identifier is computed from the key bytes alone, so equal keys always
/// yield equal identifiers.
#[verifier::external_body]
pub fn point_id_from_key(key: &str) -> (r: String)
    ensures
        r@ == point_id_of(key@),
{
    uuid::Uuid::new_v5(&uuid::Uuid::NAMESPACE_OID, key.as_bytes()).to_string()
}

/// How many characters of content the stored snippet keeps.
pub const SNIPPET_MAX: usize = 200;

/// The human-readable snippet stored beside a point: the content itself when
/// short, else its first `SNIPPET_MAX` characters followed by an ellipsis.
pub open spec fn snippet_of(content: Seq<char>) -> Seq<char> {
    if content.len() <= SNIPPET_MAX {
        content
    } else {
        content.take(SNIPPET_MAX as int) + "..."@
    }
}

/// Truncate content to its stored snippet form.
pub fn snippet(content: &str) -> (r: String)
    ensures
        r@ == snippet_of(content@),
{
    let n = content.unicode_len();
    if n <= SNIPPET_MAX {
        String::from_str(content)
    } else {
        let mut s = String::from_str(content.substring_char(0, SNIPPET_MAX));
        s.append("...");
        proof {
            assert(content@.subrange(0, SNIPPET_MAX as int) =~= content@.take(SNIPPET_MAX as int));
        }
        s
    }
}

/// One stored vector point: the content-addressed identifier and the
/// attribute bag kept beside the embedding.
pub struct VectorPoint {
    pub id: String,
    pub file_name: String,
    pub task_id: u64,
    pub content_snippet: String,
    pub full_content: String,
}

/// The mathematical model of a stored point: each text attribute as its
/// character sequence.
pub struct PointModel {
    pub id: Seq<char>,
    pub file_name: Seq<char>,
    pub task_id: u64,
    pub content_snippet: Seq<char>,
    pub full_content: Seq<char>,
}

impl View for VectorPoint {
    type V = PointModel;

    open spec fn view(&self) -> PointModel {
        PointModel {
            id: self.id@,
            file_name: self.file_name@,
            task_id: self.task_id,
            content_snippet: self.content_snippet@,
            full_content: self.full_content@,
        }
    }
}

/// The point `build_point` produces for one chunk of a document.
pub open spec fn built_point(
    task_id: u64,
    file_name: Seq<char>,
    chunk_index: nat,
    chunk_total: nat,
    content: Seq<char>,
) -> PointModel {
    PointModel {
        id: point_id_of(point_key_of(file_name, chunk_index, chunk_total)),
        file_name: file_name,
        task_id: task_id,
        content_snippet: snippet_of(content),
        full_content: content,
    }
}

impl VectorPoint {
    /// A field-for-field copy of this point.
    pub fn duplicate(&self) -> (r: VectorPoint)
        ensures
            r == *self,
    {
        VectorPoint {
            id: self.id.clone(),
            file_name: self.file_name.clone(),
            task_id: self.task_id,
            content_snippet: self.content_snippet.clone(),
            full_content: self.full_content.clone(),
        }
    }
}

/// Assemble the vector point for one chunk: its deterministic identifier and
/// the attributes that travel with the embedding.
pub fn build_point(
    task_id: u64,
    file_name: &str,
    chunk_index: u64,
    chunk_total: u64,
    content: &str,
) -> (r: VectorPoint)
    ensures
        r@ == built_point(task_id, file_name@, chunk_index as nat, chunk_total as nat, content@),
{
    let key = point_key(file_name, chunk_index, chunk_total);
    VectorPoint {
        id: point_id_from_key(key.as_str()),
        file_name: String::from_str(file_name),
        task_id,
        content_snippet: snippet(content),
        full_content: String::from_str(content),
    }
}

} // verus!

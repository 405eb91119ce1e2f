//! The vector store side: point ids, search hits, collection settings and the
//! embedding endpoints.
use vstd::prelude::*;
use crate::entities::RagChunk;
use crate::error::GraphonError;
use crate::text::{push_char, trim_end_char, trimmed_end};
use vstd::string::StringSliceAdditionalSpecFns;

verus! {

/// The 64-bit FNV-1a offset basis.
pub open spec fn fnv_offset() -> u64 {
    0xcbf29ce484222325
}

/// The 64-bit FNV-1a prime.
pub open spec fn fnv_prime() -> u64 {
    0x100000001b3
}

/// The 64-bit FNV-1a hash of a byte string.
pub open spec fn fnv1a(b: Seq<u8>) -> u64
    decreases b.len(),
{
    if b.len() == 0 {
        fnv_offset()
    } else {
        (fnv1a(b.drop_last()) ^ (b.last() as u64)).wrapping_mul(fnv_prime())
    }
}

/// The 64-bit FNV-1a hash of the UTF-8 bytes of `s`.
pub fn fnv1a_64(s: &str) -> (h: u64)
    ensures
        h == fnv1a(s.spec_bytes()),
{
    let bytes = s.as_bytes();
    let mut hash: u64 = 0xcbf29ce484222325;
    let mut i: usize = 0;
    while i < bytes.len()
        invariant
            i <= bytes@.len(),
            bytes@ == s.spec_bytes(),
            hash == fnv1a(bytes@.take(i as int)),
        decreases bytes@.len() - i,
    {
        assert(bytes@.take(i + 1).drop_last() =~= bytes@.take(i as int));
        hash = hash ^ (bytes[i] as u64);
        hash = hash.wrapping_mul(0x100000001b3);
        i += 1;
    }
    assert(bytes@.take(bytes@.len() as int) =~= bytes@);
    hash
}

/// The decimal digit of `d` (below 10).
pub open spec fn decimal_digit(d: nat) -> char {
    (('0' as u32) + d) as char
}

/// The decimal digits of `n`, without leading zeros.
pub open spec fn decimal(n: nat) -> Seq<char>
    decreases n,
{
    if n < 10 {
        seq![decimal_digit(n)]
    } else {
        decimal(n / 10).push(decimal_digit(n % 10))
    }
}

fn push_decimal(out: &mut String, n: u64)
    ensures
        final(out)@ == old(out)@ + decimal(n as nat),
    decreases n,
{
    let d: u8 = (n % 10) as u8;
    let c: char = (48 + d) as char;
    if n >= 10 {
        push_decimal(out, n / 10);
    }
    push_char(out, c);
    assert(final(out)@ =~= old(out)@ + decimal(n as nat));
}

/// The decimal text of `n`.
pub fn decimal_text(n: u64) -> (s: String)
    ensures
        s@ == decimal(n as nat),
{
    let mut s = String::new();
    push_decimal(&mut s, n);
    s
}

/// The text hashed into a chunk's point id: `<email id>-<chunk index>`.
pub open spec fn point_key(email_id: Seq<char>, chunk_index: usize) -> Seq<char> {
    email_id + "-"@ + decimal(chunk_index as nat)
}

/// The id of the vector-store point of a chunk: the FNV-1a hash of
/// `<email id>-<chunk index>`, so that re-indexing a chunk replaces its point
/// (see [`lemma_reindexing_is_idempotent`]).
pub fn point_id(chunk: &RagChunk) -> (id: u64)
    ensures
        id == chunk_point(*chunk).0,
        id == fnv1a(crate::text::utf8_of(point_key(chunk.email_id@, chunk.chunk_index))),
{
    let mut key = chunk.email_id.clone();
    key.append("-");
    let digits = decimal_text(chunk.chunk_index as u64);
    key.append(digits.as_str());
    proof {
        reveal_strlit("-");
    }
    fnv1a_64(key.as_str())
}

/// The point written for a chunk: its id and the chunk as its payload.
pub open spec fn chunk_point(c: RagChunk) -> (u64, RagChunk) {
    (fnv1a(crate::text::utf8_of(point_key(c.email_id@, c.chunk_index))), c)
}

/// A collection of points after upserting `pts` in order: each point replaces
/// any point with its id.
pub open spec fn upserted<V>(coll: Map<u64, V>, pts: Seq<(u64, V)>) -> Map<u64, V>
    decreases pts.len(),
{
    if pts.len() == 0 {
        coll
    } else {
        upserted(coll, pts.drop_last()).insert(pts.last().0, pts.last().1)
    }
}

/// Some point of `pts` has the id `k`.
pub open spec fn has_id<V>(pts: Seq<(u64, V)>, k: u64) -> bool {
    exists|i: int| 0 <= i < pts.len() && (#[trigger] pts[i]).0 == k
}

proof fn lemma_upserted_at<V>(c: Map<u64, V>, d: Map<u64, V>, pts: Seq<(u64, V)>, k: u64)
    ensures
        has_id(pts, k) ==> upserted(c, pts).contains_key(k) && upserted(d, pts).contains_key(k) && upserted(
            c,
            pts,
        )[k] == upserted(d, pts)[k],
        !has_id(pts, k) ==> (upserted(c, pts).contains_key(k) == c.contains_key(k) && (c.contains_key(k)
            ==> upserted(c, pts)[k] == c[k])),
    decreases pts.len(),
{
    if pts.len() > 0 {
        let p = pts.drop_last();
        lemma_upserted_at(c, d, p, k);
        if has_id(pts, k) && pts.last().0 != k {
            let i = choose|i: int| 0 <= i < pts.len() && (#[trigger] pts[i]).0 == k;
            assert(i < pts.len() - 1);
            assert(p[i] == pts[i]);
        }
        if !has_id(pts, k) {
            assert(pts[pts.len() - 1] == pts.last());
            assert forall|i: int| 0 <= i < p.len() implies (#[trigger] p[i]).0 != k by {
                assert(p[i] == pts[i]);
            }
        }
        if has_id(p, k) {
            let i = choose|i: int| 0 <= i < p.len() && (#[trigger] p[i]).0 == k;
            assert(pts[i] == p[i]);
        }
    }
}

/// Upserting the same points twice leaves a collection as upserting them once.
pub proof fn lemma_upsert_twice<V>(coll: Map<u64, V>, pts: Seq<(u64, V)>)
    ensures
        upserted(upserted(coll, pts), pts) == upserted(coll, pts),
{
    let once = upserted(coll, pts);
    assert forall|k: u64| #[trigger] upserted(once, pts).contains_key(k) == once.contains_key(k) && (
    once.contains_key(k) ==> upserted(once, pts)[k] == once[k]) by {
        lemma_upserted_at(once, coll, pts, k);
    }
    assert(upserted(once, pts) =~= once);
}

/// The points written when indexing `chunks`: for each chunk, in order, its
/// id and the chunk itself as the payload.
pub fn chunk_points(chunks: &Vec<RagChunk>) -> (r: Vec<(u64, RagChunk)>)
    ensures
        r@ == chunks@.map_values(|c: RagChunk| chunk_point(c)),
{
    let mut r: Vec<(u64, RagChunk)> = Vec::new();
    let mut i: usize = 0;
    while i < chunks.len()
        invariant
            i <= chunks@.len(),
            r@ == chunks@.take(i as int).map_values(|c: RagChunk| chunk_point(c)),
        decreases chunks@.len() - i,
    {
        let id = point_id(&chunks[i]);
        let c = chunks[i].clone();
        r.push((id, c));
        assert(chunks@.take(i + 1).map_values(|c: RagChunk| chunk_point(c)) =~= chunks@.take(i as int).map_values(
            |c: RagChunk| chunk_point(c),
        ).push(chunk_point(chunks@[i as int])));
        i += 1;
    }
    assert(chunks@.take(chunks@.len() as int) =~= chunks@);
    r
}

/// Re-indexing the same chunks writes the same points (each chunk under the
/// id hashed from its e-mail id and index), so indexing them twice leaves the
/// collection as indexing them once: nothing is duplicated.
pub proof fn lemma_reindexing_is_idempotent(coll: Map<u64, RagChunk>, chunks: Seq<RagChunk>)
    ensures
        upserted(upserted(coll, chunks.map_values(|c: RagChunk| chunk_point(c))), chunks.map_values(
            |c: RagChunk| chunk_point(c),
        )) == upserted(coll, chunks.map_values(|c: RagChunk| chunk_point(c))),
{
    lemma_upsert_twice(coll, chunks.map_values(|c: RagChunk| chunk_point(c)));
}

/// The chunk described by the payload of a search hit; a missing text field
/// reads as empty, a missing index as 0.
pub fn chunk_from_payload(
    email_id: Option<String>,
    subject: Option<String>,
    sender: Option<String>,
    chunk_index: Option<i64>,
    content: Option<String>,
) -> (c: RagChunk)
    ensures
        c.email_id@ == text_or_empty(email_id),
        c.subject@ == text_or_empty(subject),
        c.sender@ == text_or_empty(sender),
        c.chunk_index == (match chunk_index {
            Some(n) => n,
            None => 0,
        }) as usize,
        c.content@ == text_or_empty(content),
{
    let index: i64 = match chunk_index {
        Some(n) => n,
        None => 0,
    };
    RagChunk {
        email_id: or_empty(email_id),
        subject: or_empty(subject),
        sender: or_empty(sender),
        chunk_index: index as usize,
        content: or_empty(content),
    }
}

/// The text held, or the empty text.
pub open spec fn text_or_empty(t: Option<String>) -> Seq<char> {
    match t {
        Some(s) => s@,
        None => Seq::empty(),
    }
}

fn or_empty(t: Option<String>) -> (s: String)
    ensures
        s@ == text_or_empty(t),
{
    match t {
        Some(s) => s,
        None => String::new(),
    }
}

// ---------------------------------------------------------------------------
// Collection settings
// ---------------------------------------------------------------------------

/// Where the vector store lives and which collection the chunks go to.
pub struct QdrantConfig {
    pub qdrant_url: String,
    pub collection_name: String,
    pub vector_size: usize,
}

impl QdrantConfig {
    /// The settings given, the unset ones taken from the defaults: the
    /// in-cluster Qdrant service, the collection `emails`, vectors of 768.
    pub fn new(qdrant_url: Option<String>, collection_name: Option<String>, vector_size: Option<usize>) -> (c: QdrantConfig)
        ensures
            c.qdrant_url@ == (match qdrant_url {
                Some(u) => u@,
                None => "http://qdrant.qdrant.svc.cluster.local:6333"@,
            }),
            c.collection_name@ == (match collection_name {
                Some(n) => n@,
                None => "emails"@,
            }),
            c.vector_size == (match vector_size {
                Some(n) => n,
                None => 768,
            }),
    {
        let qdrant_url = match qdrant_url {
            Some(u) => u,
            None => String::from_str("http://qdrant.qdrant.svc.cluster.local:6333"),
        };
        let collection_name = match collection_name {
            Some(n) => n,
            None => String::from_str("emails"),
        };
        let vector_size = match vector_size {
            Some(n) => n,
            None => 768,
        };
        QdrantConfig { qdrant_url, collection_name, vector_size }
    }

    /// The collection the chunks go to.
    pub fn collection_name(&self) -> (r: &str)
        ensures
            r@ == self.collection_name@,
    {
        self.collection_name.as_str()
    }
}

/// What to do to a collection so that it is present, or absent, as wanted.
#[derive(PartialEq, Eq)]
pub enum CollectionStep {
    Create,
    Delete,
    Nothing,
}

/// The change that makes the collection present (`want_present`) or absent:
/// create it only when it is wanted and missing, delete it only when it is
/// unwanted and there; otherwise leave it.
pub fn collection_step(want_present: bool, exists: bool) -> (r: CollectionStep)
    ensures
        r == (if want_present && !exists {
            CollectionStep::Create
        } else if !want_present && exists {
            CollectionStep::Delete
        } else {
            CollectionStep::Nothing
        }),
{
    if want_present && !exists {
        CollectionStep::Create
    } else if !want_present && exists {
        CollectionStep::Delete
    } else {
        CollectionStep::Nothing
    }
}

// ---------------------------------------------------------------------------
// Embedding endpoints
// ---------------------------------------------------------------------------

/// Where embeddings are asked for and how.
pub enum EmbeddingEndpoint {
    /// An OpenAI-style `/v1/embeddings` endpoint of Pylos, with an optional
    /// bearer token for the `Authorization` header.
    Pylos { url: String, model: String, authorization: Option<String> },
    /// Google's Gemini embedding endpoint, the key in the URL.
    Gemini { url: String },
}

/// The error given when no embedding service is configured.
pub open spec fn embeddings_unconfigured() -> Seq<char> {
    "LLM_API_KEY/PYLOS_EMBEDDING_MODEL not configured. Cannot generate embeddings."@
}

/// The Gemini URL for a batch of texts or for one text.
pub open spec fn gemini_url(key: Seq<char>, batch: bool) -> Seq<char> {
    if batch {
        "https://generativelanguage.googleapis.com/v1beta/models/text-embedding-004:batchEmbedContents?key="@ + key
    } else {
        "https://generativelanguage.googleapis.com/v1beta/models/text-embedding-004:embedContent?key="@ + key
    }
}

/// The text held, or the given default.
pub open spec fn text_or(t: Option<String>, default: Seq<char>) -> Seq<char> {
    match t {
        Some(s) => s@,
        None => default,
    }
}

/// The endpoint for embeddings: Pylos when an embedding model is set (its base
/// URL defaulting to `http://localhost:3000`, trailing `/` removed, with a
/// bearer token when a Pylos key is set); otherwise Gemini with the LLM key;
/// with neither, a `Classifier` error.
pub fn embedding_endpoint(
    pylos_embedding_model: &Option<String>,
    pylos_base_url: &Option<String>,
    pylos_api_key: &Option<String>,
    llm_api_key: &Option<String>,
    batch: bool,
) -> (r: Result<EmbeddingEndpoint, GraphonError>)
    ensures
        match *pylos_embedding_model {
            Some(model) => r matches Ok(EmbeddingEndpoint::Pylos { url, model: m, authorization }) && {
                &&& url@ == trimmed_end(text_or(*pylos_base_url, "http://localhost:3000"@), '/') + "/v1/embeddings"@
                &&& m@ == model@
                &&& match *pylos_api_key {
                    Some(k) => authorization matches Some(a) && a@ == "Bearer "@ + k@,
                    None => authorization is None,
                }
            },
            None => match *llm_api_key {
                Some(key) => r matches Ok(EmbeddingEndpoint::Gemini { url }) && url@ == gemini_url(key@, batch),
                None => r matches Err(GraphonError::Classifier(m)) && m@ == embeddings_unconfigured(),
            },
        },
{
    match pylos_embedding_model {
        Some(model) => {
            let base = match pylos_base_url {
                Some(b) => b.clone(),
                None => String::from_str("http://localhost:3000"),
            };
            let mut url = trim_end_char(base.as_str(), '/');
            url.append("/v1/embeddings");
            let authorization = match pylos_api_key {
                Some(k) => {
                    let mut a = String::from_str("Bearer ");
                    a.append(k.as_str());
                    Some(a)
                },
                None => None,
            };
            Ok(EmbeddingEndpoint::Pylos { url, model: model.clone(), authorization })
        },
        None => match llm_api_key {
            Some(key) => {
                let mut url = if batch {
                    String::from_str(
                        "https://generativelanguage.googleapis.com/v1beta/models/text-embedding-004:batchEmbedContents?key=",
                    )
                } else {
                    String::from_str(
                        "https://generativelanguage.googleapis.com/v1beta/models/text-embedding-004:embedContent?key=",
                    )
                };
                url.append(key.as_str());
                Ok(EmbeddingEndpoint::Gemini { url })
            },
            None => Err(
                GraphonError::Classifier(
                    String::from_str("LLM_API_KEY/PYLOS_EMBEDDING_MODEL not configured. Cannot generate embeddings."),
                ),
            ),
        },
    }
}

/// `p` lists the positions of `items` in order of their indices, positions
/// with equal indices in increasing order: the order of a stable sort by index.
pub open spec fn index_order<T>(items: Seq<(usize, T)>, p: Seq<int>) -> bool {
    &&& p.len() == items.len()
    &&& forall|k: int| 0 <= k < p.len() ==> 0 <= #[trigger] p[k] < items.len()
    &&& forall|i: int, j: int|
        0 <= i < j < p.len() ==> items[#[trigger] p[i]].0 < items[#[trigger] p[j]].0 || (items[p[i]].0
            == items[p[j]].0 && p[i] < p[j])
}

/// Calls `slice::sort_by_key`, keyed by the first component of each pair.
/// Claimed, as std documents (a stable sort): the result holds the pairs in
/// order of their first component, pairs with equal first components in the
/// order they had.
#[verifier::external_body]
fn sort_by_index<T>(v: &mut Vec<(usize, T)>)
    ensures
        final(v)@.len() == old(v)@.len(),
        exists|p: Seq<int>|
            index_order(old(v)@, p) && forall|k: int| 0 <= k < p.len() ==> #[trigger] final(v)@[k] == old(v)@[p[k]],
{
    v.sort_by_key(|d| d.0);
}

/// The values of `items` put in order of their indices, values with equal
/// indices in the order given (how the embeddings that Pylos returns with
/// their input positions are put back in input order).
pub fn in_index_order<T>(items: Vec<(usize, T)>) -> (r: Vec<T>)
    ensures
        exists|p: Seq<int>|
            index_order(items@, p) && r@.len() == p.len() && forall|k: int|
                0 <= k < p.len() ==> #[trigger] r@[k] == items@[p[k]].1,
{
    let ghost original = items@;
    let mut v = items;
    sort_by_index(&mut v);
    let ghost sorted = v@;
    let ghost p = choose|p: Seq<int>|
        index_order(original, p) && forall|k: int| 0 <= k < p.len() ==> #[trigger] sorted[k] == original[p[k]];
    let ghost n = sorted.len();
    let mut reversed: Vec<T> = Vec::new();
    while v.len() > 0
        invariant
            v@ == sorted.take(v@.len() as int),
            v@.len() <= n,
            n == sorted.len(),
            reversed@.len() == n - v@.len(),
            forall|k: int| 0 <= k < reversed@.len() ==> #[trigger] reversed@[k] == sorted[n - 1 - k].1,
        decreases v@.len(),
    {
        let ghost before = v@;
        let last = v.pop();
        match last {
            Some(pair) => {
                assert(pair == sorted[before.len() - 1]);
                assert(v@ =~= sorted.take(v@.len() as int));
                let (_, value) = pair;
                reversed.push(value);
            },
            None => {},
        }
    }
    let mut r: Vec<T> = Vec::new();
    while reversed.len() > 0
        invariant
            reversed@.len() + r@.len() == n,
            n == sorted.len(),
            forall|k: int| 0 <= k < reversed@.len() ==> #[trigger] reversed@[k] == sorted[n - 1 - k].1,
            forall|k: int| 0 <= k < r@.len() ==> #[trigger] r@[k] == sorted[k].1,
        decreases reversed@.len(),
    {
        let ghost before = reversed@;
        let last = reversed.pop();
        match last {
            Some(value) => {
                assert(value == before[before.len() - 1]);
                assert(forall|k: int| 0 <= k < reversed@.len() ==> reversed@[k] == before[k]);
                r.push(value);
            },
            None => {},
        }
    }
    assert forall|k: int| 0 <= k < p.len() implies #[trigger] r@[k] == original[p[k]].1 by {
        assert(sorted[k] == original[p[k]]);
    }
    r
}

/// The first embedding that Pylos returned for a single text, or the error
/// saying that it returned none.
pub fn first_embedding<T>(data: Vec<T>) -> (r: Result<T, GraphonError>)
    ensures
        data@.len() > 0 ==> (r matches Ok(x) && x == data@[0]),
        data@.len() == 0 ==> (r matches Err(GraphonError::Classifier(m)) && m@ == "Pylos embedding returned empty results"@),
{
    let mut data = data;
    if data.len() > 0 {
        Ok(data.remove(0))
    } else {
        Err(empty_embedding_error())
    }
}

/// The error for a failed embedding request, naming the service that failed.
pub fn embedding_http_error(pylos: bool, body: &str) -> (e: GraphonError)
    ensures
        e matches GraphonError::Classifier(m) && m@ == (if pylos {
            "Pylos Embedding API error: "@
        } else {
            "Gemini Embedding API error: "@
        }) + body@,
{
    let mut m = if pylos {
        String::from_str("Pylos Embedding API error: ")
    } else {
        String::from_str("Gemini Embedding API error: ")
    };
    m.append(body);
    GraphonError::Classifier(m)
}

/// The error given when Pylos answers a single-text request with no embedding.
pub fn empty_embedding_error() -> (e: GraphonError)
    ensures
        e matches GraphonError::Classifier(m) && m@ == "Pylos embedding returned empty results"@,
{
    GraphonError::Classifier(String::from_str("Pylos embedding returned empty results"))
}

/// Checks that there is one embedding per chunk.
pub fn check_embedding_count(expected: usize, received: usize) -> (r: Result<(), GraphonError>)
    ensures
        expected == received <==> r is Ok,
        r matches Err(GraphonError::Classifier(m)) ==> m@ == "Mismatch: expected "@ + decimal(expected as nat)
            + " embeddings, received "@ + decimal(received as nat),
        r matches Err(e) ==> e is Classifier,
{
    if expected == received {
        Ok(())
    } else {
        let mut m = String::from_str("Mismatch: expected ");
        let a = decimal_text(expected as u64);
        m.append(a.as_str());
        m.append(" embeddings, received ");
        let b = decimal_text(received as u64);
        m.append(b.as_str());
        Err(GraphonError::Classifier(m))
    }
}

} // verus!

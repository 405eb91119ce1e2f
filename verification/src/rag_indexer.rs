//! Cutting e-mails into overlapping chunks for retrieval-augmented generation.
use vstd::prelude::*;
use crate::entities::{Email, RagChunk, SearchQuery};
use crate::error::GraphonError;
use crate::text::{chars_of, push_char};

verus! {

/// The earliest instant, in seconds since the epoch, that chrono's `DateTime<Utc>` holds.
pub open spec fn min_utc_seconds() -> int {
    -8334601228800
}

/// The latest whole second, since the epoch, that chrono's `DateTime<Utc>` holds.
pub open spec fn max_utc_seconds() -> int {
    8210266876799
}

/// `secs` and `nanos` name an instant that chrono's `DateTime<Utc>` can hold
/// (the domain of `DateTime::from_timestamp`): a whole second in its range,
/// then fewer than a second of nanoseconds, or, in the last second of a
/// minute, fewer than two (a leap second).
pub open spec fn in_utc_range(secs: i64, nanos: u32) -> bool {
    &&& min_utc_seconds() <= secs <= max_utc_seconds()
    &&& nanos < 2_000_000_000
    &&& (nanos < 1_000_000_000 || (secs as int) % 60 == 59)
}

/// Tells whether `secs` and `nanos` name an instant that chrono's
/// `DateTime<Utc>` can hold.
pub fn in_utc_range_check(secs: i64, nanos: u32) -> (r: bool)
    ensures
        r == in_utc_range(secs, nanos),
{
    if secs < -8334601228800i64 || secs > 8210266876799i64 || nanos >= 2_000_000_000 {
        return false;
    }
    if nanos < 1_000_000_000 {
        return true;
    }
    let shifted: u64 = (secs + 8334601228800i64) as u64;
    assert((shifted as int) % 60 == (secs as int) % 60) by (nonlinear_arith)
        requires
            shifted as int == secs as int + 8334601228800,
            8334601228800 == 60 * 138910020480,
    ;
    shifted % 60 == 59
}

/// How chrono displays the UTC instant `nanos` nanoseconds after the second
/// `secs` seconds after the epoch.
pub uninterp spec fn utc_display(secs: i64, nanos: u32) -> Seq<char>;

/// Calls `chrono::DateTime::<Utc>::from_timestamp(secs, nanos)` and displays
/// the instant with `to_string` (chrono's `Display`). Claimed: for an instant
/// in chrono's range the text is a function of `secs` and `nanos` alone,
/// named `utc_display`.
#[verifier::external_body]
pub(crate) fn format_utc(secs: i64, nanos: u32) -> (r: String)
    requires
        in_utc_range(secs, nanos),
    ensures
        r@ == utc_display(secs, nanos),
{
    match chrono::DateTime::from_timestamp(secs, nanos) {
        Some(d) => d.to_string(),
        None => String::new(),
    }
}

/// The number of characters in one chunk.
pub open spec fn chunk_size() -> int {
    1000
}

/// The number of characters that a chunk shares with the next one.
pub open spec fn chunk_overlap() -> int {
    200
}

/// The distance between the starts of two consecutive chunks.
pub open spec fn chunk_step() -> int {
    800
}

/// The text that is cut into chunks: sender, subject, date, then the body.
pub open spec fn rag_text(e: Email) -> Seq<char> {
    "From: "@ + e.from@ + "\nSubject: "@ + e.subject@ + "\nDate: "@ + utc_display(e.date, e.date_nanos) + "\n\n"@ + e.body@
}

/// The number of chunks of a text of `len` characters.
pub open spec fn chunk_count(len: nat) -> nat
    decreases len,
{
    if len == 0 {
        0
    } else if len <= chunk_size() {
        1
    } else {
        1 + chunk_count((len - chunk_step()) as nat)
    }
}

/// The first character of chunk `i`.
pub open spec fn chunk_start(i: int) -> int {
    chunk_step() * i
}

/// One past the last character of chunk `i`, for a text of `len` characters.
pub open spec fn chunk_end(len: int, i: int) -> int {
    if chunk_start(i) + chunk_size() < len {
        chunk_start(i) + chunk_size()
    } else {
        len
    }
}

/// Chunk `i` of `text`.
pub open spec fn chunk_of(text: Seq<char>, i: int) -> Seq<char> {
    text.subrange(chunk_start(i), chunk_end(text.len() as int, i))
}

/// The chunks of `e`: the i-th holds characters `800 i` up to `800 i + 1000`
/// (or the end) of its text, and they run until one reaches the end.
pub open spec fn is_chunking_of(r: Seq<RagChunk>, e: Email) -> bool {
    let text = rag_text(e);
    &&& r.len() == chunk_count(text.len())
    &&& forall|i: int| 0 <= i < r.len() ==> {
        &&& (#[trigger] r[i]).email_id@ == e.id@
        &&& r[i].subject@ == e.subject@
        &&& r[i].sender@ == e.from@
        &&& r[i].chunk_index == i
        &&& r[i].content@ == chunk_of(text, i)
    }
}

/// Glues chunk texts back together, dropping from each chunk after the first
/// the characters it shares with the one before.
pub open spec fn reassemble(cs: Seq<Seq<char>>) -> Seq<char>
    decreases cs.len(),
{
    if cs.len() == 0 {
        Seq::empty()
    } else if cs.len() == 1 {
        cs[0]
    } else {
        reassemble(cs.drop_last()) + cs.last().skip(chunk_overlap())
    }
}

/// The texts of the chunks of `t`, in order.
pub open spec fn chunk_texts(t: Seq<char>) -> Seq<Seq<char>> {
    Seq::new(chunk_count(t.len()), |i: int| chunk_of(t, i))
}

proof fn lemma_chunk_count_bounds(len: nat)
    ensures
        len == 0 <==> chunk_count(len) == 0,
        len > 0 ==> chunk_step() * (chunk_count(len) - 1) + chunk_size() >= len,
        chunk_count(len) >= 2 ==> chunk_step() * (chunk_count(len) - 2) + chunk_size() < len,
    decreases len,
{
    if len > chunk_size() {
        lemma_chunk_count_bounds((len - chunk_step()) as nat);
    }
}

proof fn lemma_reassemble_prefix(t: Seq<char>, k: int)
    requires
        1 <= k <= chunk_count(t.len()),
    ensures
        reassemble(chunk_texts(t).take(k)) == t.take(chunk_end(t.len() as int, k - 1)),
    decreases k,
{
    let len = t.len() as int;
    let n = chunk_count(t.len()) as int;
    lemma_chunk_count_bounds(t.len());
    let cs = chunk_texts(t).take(k);
    if k == 1 {
        assert(cs.len() == 1);
        assert(t.subrange(0, chunk_end(len, 0)) =~= t.take(chunk_end(len, 0)));
    } else {
        lemma_reassemble_prefix(t, k - 1);
        assert(cs.drop_last() =~= chunk_texts(t).take(k - 1));
        // chunk k - 2 is not the last one, so it ends 1000 characters after its start.
        assert(chunk_step() * (k - 2) + chunk_size() < len) by (nonlinear_arith)
            requires
                k - 2 <= n - 2,
                chunk_step() * (n - 2) + chunk_size() < len,
                chunk_step() == 800,
        ;
        assert(chunk_end(len, k - 2) == chunk_start(k - 1) + chunk_overlap());
        assert(chunk_start(k - 1) < len) by (nonlinear_arith)
            requires
                chunk_start(k - 1) == 800 * (k - 1),
                800 * (k - 2) + 1000 < len,
        ;
        assert(chunk_end(len, k - 1) >= chunk_end(len, k - 2));
        assert(cs.last() == chunk_of(t, k - 1));
        assert(t.take(chunk_end(len, k - 2)) + chunk_of(t, k - 1).skip(chunk_overlap())
            =~= t.take(chunk_end(len, k - 1)));
    }
}

/// Chunking loses nothing and duplicates nothing beyond the overlaps: gluing
/// the chunks of an e-mail back together, each after the first without the 200
/// characters it shares with the one before, gives back the whole text; and
/// every chunk holds between 1 and 1000 characters.
pub proof fn lemma_chunks_cover_text(r: Seq<RagChunk>, e: Email)
    requires
        is_chunking_of(r, e),
    ensures
        reassemble(r.map_values(|c: RagChunk| c.content@)) == rag_text(e),
        forall|i: int| 0 <= i < r.len() ==> 1 <= (#[trigger] r[i]).content@.len() <= chunk_size(),
{
    let t = rag_text(e);
    let len = t.len() as int;
    lemma_chunk_count_bounds(t.len());
    assert(r.map_values(|c: RagChunk| c.content@) =~= chunk_texts(t));
    if r.len() > 0 {
        lemma_reassemble_prefix(t, r.len() as int);
        assert(chunk_texts(t).take(r.len() as int) =~= chunk_texts(t));
        assert(chunk_end(len, r.len() - 1) == len) by (nonlinear_arith)
            requires
                chunk_step() * (r.len() - 1) + chunk_size() >= len,
                chunk_step() == 800,
                chunk_size() == 1000,
        ;
        assert(t.take(len) =~= t);
    }
    assert forall|i: int| 0 <= i < r.len() implies 1 <= (#[trigger] r[i]).content@.len() <= chunk_size() by {
        assert(chunk_start(i) < len) by (nonlinear_arith)
            requires
                0 <= i < r.len(),
                r.len() >= 1,
                chunk_start(i) == 800 * i,
                r.len() >= 2 ==> 800 * (r.len() - 2) + 1000 < len,
                len > 0,
        ;
    }
}

/// A `String` of the characters `v[start..end]`.
fn string_of_range(v: &Vec<char>, start: usize, end: usize) -> (s: String)
    requires
        start <= end <= v.len(),
    ensures
        s@ == v@.subrange(start as int, end as int),
{
    let mut s = String::new();
    let mut i: usize = start;
    while i < end
        invariant
            start <= i <= end,
            end <= v.len(),
            s@ == v@.subrange(start as int, i as int),
        decreases end - i,
    {
        push_char(&mut s, v[i]);
        i += 1;
        assert(s@ =~= v@.subrange(start as int, i as int));
    }
    s
}

/// The text of an e-mail that is cut into chunks.
pub fn rag_text_of(email: &Email) -> (r: String)
    requires
        in_utc_range(email.date, email.date_nanos),
    ensures
        r@ == rag_text(*email),
{
    let mut text = String::from_str("From: ");
    text.append(email.from.as_str());
    text.append("\nSubject: ");
    text.append(email.subject.as_str());
    text.append("\nDate: ");
    let date = format_utc(email.date, email.date_nanos);
    text.append(date.as_str());
    text.append("\n\n");
    text.append(email.body.as_str());
    text
}

/// Cuts the e-mail's text (sender, subject, date, body) into chunks of 1000
/// characters, each starting 800 characters after the previous one, so that
/// consecutive chunks share 200 characters; the last chunk ends the text.
pub fn chunk_email(email: &Email) -> (r: Vec<RagChunk>)
    requires
        in_utc_range(email.date, email.date_nanos),
    ensures
        is_chunking_of(r@, *email),
{
    let text = rag_text_of(email);
    let chars = chars_of(text.as_str());
    let ghost t = rag_text(*email);
    let len = chars.len();
    assert(chunk_count(0) == 0);
    let mut chunks: Vec<RagChunk> = Vec::new();
    let mut start: usize = 0;
    while start < len
        invariant_except_break
            chars@ == t,
            t == rag_text(*email),
            len == t.len(),
            start == chunk_step() * chunks@.len(),
            chunks@.len() > 0 ==> start < len,
            start < len ==> chunk_count(len as nat) == chunks@.len() + chunk_count((len - start) as nat),
            forall|i: int| 0 <= i < chunks@.len() ==> {
                &&& (#[trigger] chunks@[i]).email_id@ == email.id@
                &&& chunks@[i].subject@ == email.subject@
                &&& chunks@[i].sender@ == email.from@
                &&& chunks@[i].chunk_index == i
                &&& chunks@[i].content@ == chunk_of(t, i)
            },
        ensures
            is_chunking_of(chunks@, *email),
        decreases len - start,
    {
        let end = if len - start > 1000 { start + 1000 } else { len };
        let content = string_of_range(&chars, start, end);
        let index = chunks.len();
        let ghost before = chunks@;
        assert(content@ == chunk_of(t, index as int));
        chunks.push(RagChunk {
            email_id: email.id.clone(),
            subject: email.subject.clone(),
            sender: email.from.clone(),
            chunk_index: index,
            content,
        });
        assert(forall|i: int| 0 <= i < before.len() ==> chunks@[i] == before[i]);
        if end == len {
            assert(chunk_count((len - start) as nat) == 1);
            assert(chunks@.len() == chunk_count(t.len()));
            break;
        }
        assert(chunk_count((len - start) as nat) == 1 + chunk_count((len - start - 800) as nat));
        start += 800;
    }
    proof {
        if len == 0 {
            assert(chunks@.len() == 0);
        }
    }
    chunks
}

/// The chunks of the e-mail to index, or `NotFound` when storage has no
/// e-mail with that id.
pub fn index_email_for_rag(email_id: &str, found: Option<Email>) -> (r: Result<Vec<RagChunk>, GraphonError>)
    requires
        found matches Some(e) ==> in_utc_range(e.date, e.date_nanos),
    ensures
        match found {
            Some(e) => r matches Ok(chunks) && is_chunking_of(chunks@, e),
            None => r matches Err(GraphonError::NotFound(m)) && m@ == "Email with ID "@ + email_id@,
        },
{
    match found {
        Some(e) => Ok(chunk_email(&e)),
        None => {
            let mut m = String::from_str("Email with ID ");
            m.append(email_id);
            Err(GraphonError::NotFound(m))
        },
    }
}

/// Every e-mail gives at least one chunk, since its text always begins with
/// the sender line.
pub proof fn lemma_every_email_has_a_chunk(e: Email)
    ensures
        chunk_count(rag_text(e).len()) >= 1,
{
    assert(rag_text(e).len() > 0) by {
        reveal_strlit("From: ");
        assert("From: "@.len() == 6);
    }
    lemma_chunk_count_bounds(rag_text(e).len());
}

/// The chunks of each e-mail of a re-indexing, in order; an e-mail whose
/// chunk list would be empty is left out, and (by
/// [`lemma_every_email_has_a_chunk`]) there is none such.
pub fn reindex_all(emails: &Vec<Email>) -> (r: Vec<Vec<RagChunk>>)
    requires
        forall|i: int| 0 <= i < emails@.len() ==> in_utc_range(#[trigger] emails@[i].date, emails@[i].date_nanos),
    ensures
        r@.len() == emails@.len(),
        forall|i: int| 0 <= i < emails@.len() ==> is_chunking_of((#[trigger] r@[i])@, emails@[i]),
{
    let mut r: Vec<Vec<RagChunk>> = Vec::new();
    let mut i: usize = 0;
    while i < emails.len()
        invariant
            i <= emails@.len(),
            r@.len() == i,
            forall|j: int| 0 <= j < emails@.len() ==> in_utc_range(#[trigger] emails@[j].date, emails@[j].date_nanos),
            forall|j: int| 0 <= j < i ==> is_chunking_of((#[trigger] r@[j])@, emails@[j]),
        decreases emails@.len() - i,
    {
        let chunks = chunk_email(&emails[i]);
        proof {
            lemma_every_email_has_a_chunk(emails@[i as int]);
        }
        if chunks.len() > 0 {
            r.push(chunks);
        }
        i += 1;
    }
    r
}

/// The number of chunks in the batches.
pub open spec fn batch_total(b: Seq<Vec<RagChunk>>) -> int
    decreases b.len(),
{
    if b.len() == 0 {
        0
    } else {
        batch_total(b.drop_last()) + b.last()@.len()
    }
}

/// The total counts chunks, not batches: a single batch of `n` chunks totals
/// `n`, and the total of two runs of batches put together is the sum of their
/// totals.
pub proof fn lemma_batch_total_counts_chunks(v: Vec<RagChunk>, a: Seq<Vec<RagChunk>>, b: Seq<Vec<RagChunk>>)
    ensures
        batch_total(seq![v]) == v@.len(),
        batch_total(a + b) == batch_total(a) + batch_total(b),
    decreases b.len(),
{
    let one = seq![v];
    assert(one.drop_last() =~= Seq::<Vec<RagChunk>>::empty());
    assert(one.last() == v);
    assert(batch_total(one.drop_last()) == 0);
    if b.len() > 0 {
        lemma_batch_total_counts_chunks(v, a, b.drop_last());
        assert((a + b).drop_last() =~= a + b.drop_last());
    } else {
        assert(a + b =~= a);
    }
}

/// Re-indexing counts every chunk of every e-mail: the total of its batches
/// is at least the number of e-mails (each gives one chunk or more), and for
/// one e-mail it is the number of chunks of that e-mail's text.
pub proof fn lemma_reindex_total(batches: Seq<Vec<RagChunk>>, emails: Seq<Email>)
    requires
        batches.len() == emails.len(),
        forall|i: int| 0 <= i < emails.len() ==> is_chunking_of((#[trigger] batches[i])@, emails[i]),
    ensures
        batch_total(batches) >= emails.len(),
        emails.len() == 1 ==> batch_total(batches) == chunk_count(rag_text(emails[0]).len()),
    decreases batches.len(),
{
    if batches.len() > 0 {
        let n = batches.len() - 1;
        lemma_every_email_has_a_chunk(emails[n]);
        assert(is_chunking_of(batches[n]@, emails[n]));
        lemma_reindex_total(batches.drop_last(), emails.drop_last());
        if emails.len() == 1 {
            assert(batches.drop_last() =~= Seq::<Vec<RagChunk>>::empty());
        }
    }
}

/// The number of chunks indexed by a re-indexing.
pub fn total_chunks(batches: &Vec<Vec<RagChunk>>) -> (n: usize)
    requires
        batch_total(batches@) <= usize::MAX,
    ensures
        n == batch_total(batches@),
{
    let mut n: usize = 0;
    let mut i: usize = 0;
    while i < batches.len()
        invariant
            i <= batches@.len(),
            n == batch_total(batches@.take(i as int)),
            batch_total(batches@) <= usize::MAX,
        decreases batches@.len() - i,
    {
        assert(batches@.take(i + 1).drop_last() =~= batches@.take(i as int));
        proof {
            lemma_batch_total_prefix(batches@, i as int + 1);
        }
        n = n + batches[i].len();
        i += 1;
    }
    assert(batches@.take(batches@.len() as int) =~= batches@);
    n
}

proof fn lemma_batch_total_prefix(b: Seq<Vec<RagChunk>>, k: int)
    requires
        0 <= k <= b.len(),
    ensures
        batch_total(b.take(k)) <= batch_total(b),
    decreases b.len(),
{
    if k < b.len() {
        assert(b.drop_last().take(k) =~= b.take(k));
        lemma_batch_total_prefix(b.drop_last(), k);
    } else {
        assert(b.take(k) =~= b);
    }
}

/// The query sent to the vector store for a search.
pub fn search(query_text: &str, limit: u64) -> (q: SearchQuery)
    ensures
        q.query_text@ == query_text@,
        q.limit == limit,
{
    SearchQuery { query_text: query_text.to_owned(), limit }
}

} // verus!

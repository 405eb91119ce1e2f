//! The domain model: e-mails, attachments, retention rules, RAG chunks and labels.
//!
//! Dates are held as whole seconds since the Unix epoch (UTC) and the
//! nanoseconds after that second.
use vstd::prelude::*;

verus! {

/// A file attached to an e-mail.
pub struct Attachment {
    pub id: String,
    pub filename: String,
    pub mime_type: String,
    pub size: usize,
    pub data: Option<Vec<u8>>,
}

/// The mathematical model of an [`Attachment`].
pub struct AttachmentModel {
    pub id: Seq<char>,
    pub filename: Seq<char>,
    pub mime_type: Seq<char>,
    pub size: usize,
    pub data: Option<Seq<u8>>,
}

impl View for Attachment {
    type V = AttachmentModel;

    open spec fn view(&self) -> AttachmentModel {
        AttachmentModel {
            id: self.id@,
            filename: self.filename@,
            mime_type: self.mime_type@,
            size: self.size,
            data: match self.data {
                Some(d) => Some(d@),
                None => None,
            },
        }
    }
}

impl Clone for Attachment {
    fn clone(&self) -> (r: Self)
        ensures
            r@ == self@,
    {
        Attachment {
            id: self.id.clone(),
            filename: self.filename.clone(),
            mime_type: self.mime_type.clone(),
            size: self.size,
            data: match &self.data {
                Some(d) => Some(d.clone()),
                None => None,
            },
        }
    }
}

/// The views of a list of texts.
pub open spec fn texts_view(v: Seq<String>) -> Seq<Seq<char>> {
    v.map_values(|s: String| s@)
}

/// The views of a list of attachments.
pub open spec fn attachments_view(v: Seq<Attachment>) -> Seq<AttachmentModel> {
    v.map_values(|a: Attachment| a@)
}

/// A copy of a list of texts.
pub fn clone_texts(v: &Vec<String>) -> (r: Vec<String>)
    ensures
        r@ == v@,
{
    v.clone()
}

/// A copy of a list of attachments.
pub fn clone_attachments(v: &Vec<Attachment>) -> (r: Vec<Attachment>)
    ensures
        attachments_view(r@) == attachments_view(v@),
{
    let mut r: Vec<Attachment> = Vec::new();
    let mut i: usize = 0;
    while i < v.len()
        invariant
            i <= v.len(),
            r@.len() == i,
            forall|j: int| 0 <= j < i ==> #[trigger] r@[j]@ == v@[j]@,
        decreases v.len() - i,
    {
        r.push(v[i].clone());
        i += 1;
    }
    assert(attachments_view(r@) =~= attachments_view(v@));
    r
}

/// An e-mail message, dated `date` whole seconds after the Unix epoch (UTC)
/// and `date_nanos` nanoseconds after that second.
pub struct Email {
    pub id: String,
    pub thread_id: String,
    pub from: String,
    pub to: Vec<String>,
    pub subject: String,
    pub body: String,
    pub date: i64,
    pub date_nanos: u32,
    pub labels: Vec<String>,
    pub attachments: Vec<Attachment>,
}

/// The mathematical model of an [`Email`].
pub struct EmailModel {
    pub id: Seq<char>,
    pub thread_id: Seq<char>,
    pub from: Seq<char>,
    pub to: Seq<Seq<char>>,
    pub subject: Seq<char>,
    pub body: Seq<char>,
    pub date: i64,
    pub date_nanos: u32,
    pub labels: Seq<Seq<char>>,
    pub attachments: Seq<AttachmentModel>,
}

impl View for Email {
    type V = EmailModel;

    open spec fn view(&self) -> EmailModel {
        EmailModel {
            id: self.id@,
            thread_id: self.thread_id@,
            from: self.from@,
            to: texts_view(self.to@),
            subject: self.subject@,
            body: self.body@,
            date: self.date,
            date_nanos: self.date_nanos,
            labels: texts_view(self.labels@),
            attachments: attachments_view(self.attachments@),
        }
    }
}

impl Clone for Email {
    fn clone(&self) -> (r: Self)
        ensures
            r@ == self@,
    {
        let to = clone_texts(&self.to);
        let labels = clone_texts(&self.labels);
        let attachments = clone_attachments(&self.attachments);
        Email {
            id: self.id.clone(),
            thread_id: self.thread_id.clone(),
            from: self.from.clone(),
            to,
            subject: self.subject.clone(),
            body: self.body.clone(),
            date: self.date,
            date_nanos: self.date_nanos,
            labels,
            attachments,
        }
    }
}

/// A retention rule: messages matching the Gmail `query` are trashed once they
/// are `duration_days` days old.
pub struct RetentionRule {
    pub id: String,
    pub query: String,
    pub duration_days: i64,
}

impl Clone for RetentionRule {
    fn clone(&self) -> (r: Self)
        ensures
            r == *self,
    {
        RetentionRule { id: self.id.clone(), query: self.query.clone(), duration_days: self.duration_days }
    }
}

/// One piece of an e-mail's text, as indexed for retrieval.
pub struct RagChunk {
    pub email_id: String,
    pub subject: String,
    pub sender: String,
    pub chunk_index: usize,
    pub content: String,
}

impl Clone for RagChunk {
    fn clone(&self) -> (r: Self)
        ensures
            r == *self,
    {
        RagChunk {
            email_id: self.email_id.clone(),
            subject: self.subject.clone(),
            sender: self.sender.clone(),
            chunk_index: self.chunk_index,
            content: self.content.clone(),
        }
    }
}

/// A retrieval query: the text to look for and the most results wanted.
pub struct SearchQuery {
    pub query_text: String,
    pub limit: u64,
}

/// A Gmail label with its counters.
pub struct LabelInfo {
    pub id: String,
    pub name: String,
    pub label_type: String,
    pub messages_total: Option<i64>,
    pub messages_unread: Option<i64>,
    pub threads_total: Option<i64>,
}

impl Clone for LabelInfo {
    fn clone(&self) -> (r: Self)
        ensures
            r == *self,
    {
        LabelInfo {
            id: self.id.clone(),
            name: self.name.clone(),
            label_type: self.label_type.clone(),
            messages_total: self.messages_total,
            messages_unread: self.messages_unread,
            threads_total: self.threads_total,
        }
    }
}

/// The names of Gmail's own system labels.
pub open spec fn system_label_names() -> Seq<Seq<char>> {
    seq![
        "INBOX"@, "SPAM"@, "TRASH"@, "UNREAD"@, "STARRED"@, "IMPORTANT"@, "DRAFT"@,
        "SENT"@, "CHAT"@, "CATEGORY_PERSONAL"@, "CATEGORY_SOCIAL"@,
        "CATEGORY_PROMOTIONS"@, "CATEGORY_UPDATES"@, "CATEGORY_FORUMS"@,
    ]
}

/// `name` is exactly the name of a Gmail system label.
pub open spec fn is_system_name(name: Seq<char>) -> bool {
    system_label_names().contains(name)
}

/// The message count of a label, an unknown count being 0.
pub open spec fn message_count(l: LabelInfo) -> i64 {
    match l.messages_total {
        Some(n) => n,
        None => 0,
    }
}

/// Whether `name` is exactly the name of a Gmail system label.
pub fn is_system_label_name(name: &str) -> (r: bool)
    ensures
        r == is_system_name(name@),
{
    let names: [&str; 14] = [
        "INBOX", "SPAM", "TRASH", "UNREAD", "STARRED", "IMPORTANT", "DRAFT", "SENT", "CHAT",
        "CATEGORY_PERSONAL", "CATEGORY_SOCIAL", "CATEGORY_PROMOTIONS", "CATEGORY_UPDATES",
        "CATEGORY_FORUMS",
    ];
    let ghost list = system_label_names();
    assert(forall|j: int| 0 <= j < 14 ==> #[trigger] names@[j]@ == list[j]);
    assert(list.len() == 14);
    let mut i: usize = 0;
    while i < 14
        invariant
            i <= 14,
            list.len() == 14,
            list == system_label_names(),
            forall|j: int| 0 <= j < 14 ==> #[trigger] names@[j]@ == list[j],
            forall|j: int| 0 <= j < i ==> list[j] != name@,
        decreases 14 - i,
    {
        let candidate: &str = names[i];
        assert(candidate@ == list[i as int]);
        if crate::text::str_eq(candidate, name) {
            assert(list[i as int] == name@);
            assert(list.contains(name@));
            return true;
        }
        i += 1;
    }
    false
}

impl LabelInfo {
    /// Whether this is one of Gmail's system labels (matched by exact name).
    pub fn is_system(&self) -> (r: bool)
        ensures
            r == is_system_name(self.name@),
    {
        is_system_label_name(self.name.as_str())
    }

    /// Whether the label holds no message (an unknown count counts as none).
    pub fn is_empty(&self) -> (r: bool)
        ensures
            r == (message_count(*self) == 0),
    {
        match self.messages_total {
            Some(n) => n == 0,
            None => true,
        }
    }
}

/// A group of labels with a description and the suggested action.
pub struct LabelCategory {
    pub name: String,
    pub labels: Vec<LabelInfo>,
    pub description: String,
    pub action: String,
}

} // verus!

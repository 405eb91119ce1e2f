//! E-mail classification: spam and promotion detection, importance, and the
//! requests made to the language model when keywords do not decide.
use vstd::prelude::*;
use crate::entities::Email;
use crate::error::GraphonError;
use crate::label_organizer::{contains_any, has_any_keyword};
use crate::text::{
    ascii_lower, contains, has_substring, is_ascii_text, lemma_occurs_after, lemma_occurs_in_prefix, occurs_at, to_lowercase, trim,
    trim_end_char, trimmed_end, unicode_lowercase, trimmed,
};

verus! {

/// Keywords that mark an e-mail as spam or a promotion.
pub open spec fn promo_keywords() -> Seq<&'static str> {
    seq!["unsubscribe", "opt out", "promotion", "sale", "discount", "offer", "deal", "limited time", "newsletter"]
}

/// Keywords that mark an e-mail as urgent.
pub open spec fn urgent_keywords() -> Seq<&'static str> {
    seq![
        "urgent", "asap", "action required", "attention", "important", "critical", "meeting", "interview",
        "invoice", "deadline",
    ]
}

/// The text searched for keywords: subject, a space, then body, lower-cased.
pub open spec fn check_text(e: Email) -> Seq<char> {
    unicode_lowercase(e.subject@ + " "@ + e.body@)
}

/// The keywords alone mark the e-mail as spam or a promotion.
pub open spec fn promo_by_keywords(e: Email) -> bool {
    has_any_keyword(check_text(e), promo_keywords())
}

/// The keywords alone mark the e-mail as urgent.
pub open spec fn urgent_by_keywords(e: Email) -> bool {
    has_any_keyword(check_text(e), urgent_keywords())
}

/// ASCII lower-casing of a text, character by character.
pub open spec fn ascii_lowered(t: Seq<char>) -> Seq<char> {
    t.map_values(|c: char| ascii_lower(c))
}

/// The subject, a space, then the body: the text whose lower-cased form is searched.
pub open spec fn subject_and_body(e: Email) -> Seq<char> {
    e.subject@ + " "@ + e.body@
}

/// A keyword in the subject or in the body counts: when lower-casing the
/// e-mail's text maps each character on its own (as it does for ASCII text),
/// a promotional keyword found in the lower-cased subject or in the
/// lower-cased body marks the e-mail as a promotion, and an urgent keyword
/// found in either marks it as urgent.
pub proof fn lemma_keywords_in_subject_or_body(e: Email)
    requires
        unicode_lowercase(subject_and_body(e)) == ascii_lowered(subject_and_body(e)),
    ensures
        has_any_keyword(ascii_lowered(e.subject@), promo_keywords()) || has_any_keyword(
            ascii_lowered(e.body@),
            promo_keywords(),
        ) ==> promo_by_keywords(e),
        has_any_keyword(ascii_lowered(e.subject@), urgent_keywords()) || has_any_keyword(
            ascii_lowered(e.body@),
            urgent_keywords(),
        ) ==> urgent_by_keywords(e),
{
    let ls = ascii_lowered(e.subject@);
    let lb = ascii_lowered(e.body@);
    let sp = ascii_lowered(" "@);
    assert(check_text(e) =~= ls + sp + lb);
    assert forall|kws: Seq<&'static str>| #[trigger] has_any_keyword(ls, kws) || has_any_keyword(lb, kws) implies has_any_keyword(
        check_text(e),
        kws,
    ) by {
        if has_any_keyword(ls, kws) {
            let k = choose|k: int| 0 <= k < kws.len() && has_substring(ls, #[trigger] kws[k]@);
            let i = choose|i: int| occurs_at(ls, kws[k]@, i);
            lemma_occurs_in_prefix(ls, sp + lb, kws[k]@, i);
            assert(ls + (sp + lb) =~= ls + sp + lb);
            assert(has_substring(check_text(e), kws[k]@));
        } else {
            let k = choose|k: int| 0 <= k < kws.len() && has_substring(lb, #[trigger] kws[k]@);
            let i = choose|i: int| occurs_at(lb, kws[k]@, i);
            lemma_occurs_after(ls + sp, lb, kws[k]@, i);
            assert(has_substring(check_text(e), kws[k]@));
        }
    }
}

/// The text searched for keywords; for an ASCII e-mail, its subject, a space
/// and its body, lower-cased character by character.
pub fn check_text_of(email: &Email) -> (r: String)
    ensures
        r@ == check_text(*email),
        is_ascii_text(subject_and_body(*email)) ==> r@ == ascii_lowered(subject_and_body(*email)),
{
    let mut t = email.subject.clone();
    t.append(" ");
    t.append(email.body.as_str());
    proof {
        reveal_strlit(" ");
    }
    to_lowercase(t.as_str())
}

/// Whether the keywords alone mark the e-mail as spam or a promotion. When
/// they do, the language model is not asked.
pub fn promo_keyword_match(email: &Email) -> (r: bool)
    ensures
        r == promo_by_keywords(*email),
        is_ascii_text(subject_and_body(*email)) && (has_any_keyword(ascii_lowered(email.subject@), promo_keywords())
            || has_any_keyword(ascii_lowered(email.body@), promo_keywords())) ==> r,
{
    let t = check_text_of(email);
    proof {
        if is_ascii_text(subject_and_body(*email)) {
            lemma_keywords_in_subject_or_body(*email);
        }
    }
    let keywords: [&str; 9] = ["unsubscribe", "opt out", "promotion", "sale", "discount", "offer", "deal", "limited time", "newsletter"];
    assert(keywords@ =~= promo_keywords());
    contains_any(t.as_str(), &keywords)
}

/// Whether the keywords alone mark the e-mail as urgent. When they do, the
/// language model is not asked.
pub fn urgent_keyword_match(email: &Email) -> (r: bool)
    ensures
        r == urgent_by_keywords(*email),
        is_ascii_text(subject_and_body(*email)) && (has_any_keyword(ascii_lowered(email.subject@), urgent_keywords())
            || has_any_keyword(ascii_lowered(email.body@), urgent_keywords())) ==> r,
{
    let t = check_text_of(email);
    proof {
        if is_ascii_text(subject_and_body(*email)) {
            lemma_keywords_in_subject_or_body(*email);
        }
    }
    let keywords: [&str; 10] = [
        "urgent", "asap", "action required", "attention", "important", "critical", "meeting", "interview",
        "invoice", "deadline",
    ];
    assert(keywords@ =~= urgent_keywords());
    contains_any(t.as_str(), &keywords)
}

/// The reply of the language model as it is read: trimmed, then lower-cased.
pub open spec fn normalized(reply: Seq<char>) -> Seq<char> {
    unicode_lowercase(trimmed(reply))
}

/// The model's answer: the content of its first choice (empty when there is
/// none), trimmed and lower-cased.
pub fn normalize_reply(choices: &Vec<String>) -> (r: String)
    ensures
        r@ == normalized(if choices@.len() > 0 { choices@[0]@ } else { Seq::empty() }),
{
    let content = if choices.len() > 0 { choices[0].clone() } else { String::new() };
    let t = trim(content.as_str());
    to_lowercase(t.as_str())
}

/// The verdict on spam or promotion: the keywords, or else the model's
/// normalized answer naming `promo` or `spam`; when the model could not be
/// asked (`None`), not spam.
pub fn spam_verdict(email: &Email, answer: Option<&str>) -> (r: bool)
    ensures
        r == (promo_by_keywords(*email) || (answer matches Some(a) && (has_substring(a@, "promo"@)
            || has_substring(a@, "spam"@)))),
        is_ascii_text(subject_and_body(*email)) && (has_any_keyword(ascii_lowered(email.subject@), promo_keywords())
            || has_any_keyword(ascii_lowered(email.body@), promo_keywords())) ==> r,
{
    if promo_keyword_match(email) {
        return true;
    }
    match answer {
        Some(a) => contains(a, "promo") || contains(a, "spam"),
        None => false,
    }
}

/// The importance label: `URGENT` by keywords, or else when the model's
/// normalized answer names `urgent`; otherwise, and when the model could not
/// be asked, `NORMAL`.
pub fn importance_verdict(email: &Email, answer: Option<&str>) -> (r: String)
    ensures
        r@ == (if urgent_by_keywords(*email) || (answer matches Some(a) && has_substring(a@, "urgent"@)) {
            "URGENT"@
        } else {
            "NORMAL"@
        }),
        is_ascii_text(subject_and_body(*email)) && (has_any_keyword(ascii_lowered(email.subject@), urgent_keywords())
            || has_any_keyword(ascii_lowered(email.body@), urgent_keywords())) ==> r@ == "URGENT"@,
{
    let urgent = urgent_keyword_match(email) || match answer {
        Some(a) => contains(a, "urgent"),
        None => false,
    };
    if urgent {
        String::from_str("URGENT")
    } else {
        String::from_str("NORMAL")
    }
}

/// The instructions given to the model for spam detection.
pub open spec fn spam_instructions() -> Seq<char> {
    "You are an email classifier. Reply with exactly one word: SPAM, PROMO, or OK.\nSPAM = unsolicited bulk email, scams, phishing.\nPROMO = marketing, newsletters, sales, promotions.\nOK = personal, transactional, or work emails.\nAnswer with only the word."@
}

/// The instructions given to the model for spam detection.
pub fn spam_prompt() -> (r: &'static str)
    ensures
        r@ == spam_instructions(),
{
    "You are an email classifier. Reply with exactly one word: SPAM, PROMO, or OK.\nSPAM = unsolicited bulk email, scams, phishing.\nPROMO = marketing, newsletters, sales, promotions.\nOK = personal, transactional, or work emails.\nAnswer with only the word."
}

/// The instructions given to the model for importance.
pub open spec fn importance_instructions() -> Seq<char> {
    "You are an email prioritizer. Reply with exactly one word: URGENT or NORMAL.\nURGENT = time-sensitive, requires immediate action, deadlines, meetings, invoices.\nNORMAL = routine, informational, not time-critical.\nAnswer with only the word."@
}

/// The instructions given to the model for importance.
pub fn importance_prompt() -> (r: &'static str)
    ensures
        r@ == importance_instructions(),
{
    "You are an email prioritizer. Reply with exactly one word: URGENT or NORMAL.\nURGENT = time-sensitive, requires immediate action, deadlines, meetings, invoices.\nNORMAL = routine, informational, not time-critical.\nAnswer with only the word."
}

/// A chat-completion request to the language model.
pub struct LlmRequest {
    pub url: String,
    pub authorization: String,
    pub model: String,
    pub system_prompt: String,
    pub user_text: String,
    /// The most tokens the answer may hold.
    pub max_tokens: u32,
}

/// The request that asks the model about an e-mail: posted to
/// `<base>/v1/chat/completions` (trailing `/` of the base removed) with a
/// bearer token, the instructions as the system message and the subject and
/// body as the user message, an answer of at most 64 tokens; an `Internal`
/// error when no key is configured.
pub fn llm_request(
    base_url: &str,
    api_key: &Option<String>,
    model: &str,
    prompt: &str,
    email: &Email,
) -> (r: Result<LlmRequest, GraphonError>)
    ensures
        match *api_key {
            Some(k) => r matches Ok(q) && {
                &&& q.url@ == trimmed_end(base_url@, '/') + "/v1/chat/completions"@
                &&& q.authorization@ == "Bearer "@ + k@
                &&& q.model@ == model@
                &&& q.system_prompt@ == prompt@
                &&& q.user_text@ == "Subject: "@ + email.subject@ + "\nBody:\n"@ + email.body@
                &&& q.max_tokens == 64
            },
            None => r matches Err(GraphonError::Internal(m)) && m@ == "No Pylos API key configured"@,
        },
{
    match api_key {
        None => Err(GraphonError::Internal(String::from_str("No Pylos API key configured"))),
        Some(k) => {
            let mut url = trim_end_char(base_url, '/');
            url.append("/v1/chat/completions");
            let mut authorization = String::from_str("Bearer ");
            authorization.append(k.as_str());
            let mut user_text = String::from_str("Subject: ");
            user_text.append(email.subject.as_str());
            user_text.append("\nBody:\n");
            user_text.append(email.body.as_str());
            Ok(LlmRequest {
                url,
                authorization,
                model: model.to_owned(),
                system_prompt: prompt.to_owned(),
                user_text,
                max_tokens: 64,
            })
        },
    }
}

/// The error for a request that the model's service refused: its status and body.
pub fn llm_http_error(status: &str, body: &str) -> (e: GraphonError)
    ensures
        e matches GraphonError::Internal(m) && m@ == "Pylos returned "@ + status@ + ": "@ + body@,
{
    let mut m = String::from_str("Pylos returned ");
    m.append(status);
    m.append(": ");
    m.append(body);
    GraphonError::Internal(m)
}

} // verus!

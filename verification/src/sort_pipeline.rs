//! The mail sorting run: for each unread e-mail, spam/promotion detection,
//! importance labelling and storage; then the retention purge.
//!
//! The run is a state machine. The caller performs the action that
//! [`SortRun::step`] returns (a Gmail, classifier or storage call) and hands
//! its outcome back as the next event, until the action is `Finish`.
use vstd::prelude::*;
use crate::entities::{Email, RetentionRule};
use crate::error::GraphonError;

verus! {

/// Nanoseconds in a day.
pub open spec fn nanos_per_day() -> int {
    86_400_000_000_000
}

/// The time from the instant `date` to the instant `now`, in nanoseconds; an
/// instant is given as whole seconds since the epoch and the nanoseconds
/// after that second.
pub open spec fn elapsed_nanos(now: i64, now_nanos: u32, date: i64, date_nanos: u32) -> int {
    (now - date) * 1_000_000_000 + (now_nanos - date_nanos)
}

/// The age in whole days of an e-mail dated `date` at the instant `now`,
/// rounded toward zero as chrono's `TimeDelta::num_days` does.
pub open spec fn age_days(now: i64, now_nanos: u32, date: i64, date_nanos: u32) -> int {
    let d = elapsed_nanos(now, now_nanos, date, date_nanos);
    if d >= 0 {
        d / nanos_per_day()
    } else {
        -((-d) / nanos_per_day())
    }
}

/// An e-mail dated `date` is due for trashing at `now` under a rule of `duration_days`.
pub open spec fn is_due(now: i64, now_nanos: u32, date: i64, date_nanos: u32, duration_days: i64) -> bool {
    age_days(now, now_nanos, date, date_nanos) >= duration_days
}

/// The age in whole days of an e-mail dated `date` at `now`.
pub fn email_age_days(now: i64, now_nanos: u32, date: i64, date_nanos: u32) -> (r: i128)
    ensures
        r == age_days(now, now_nanos, date, date_nanos),
{
    let d: i128 = (now as i128 - date as i128) * 1_000_000_000 + (now_nanos as i128 - date_nanos as i128);
    if d >= 0 {
        d / 86_400_000_000_000
    } else {
        let m: i128 = -d;
        -(m / 86_400_000_000_000)
    }
}

/// Whether an e-mail dated `date` is due for trashing at `now` under a rule of `duration_days`.
pub fn should_trash(now: i64, now_nanos: u32, date: i64, date_nanos: u32, duration_days: i64) -> (r: bool)
    ensures
        r == is_due(now, now_nanos, date, date_nanos, duration_days),
{
    email_age_days(now, now_nanos, date, date_nanos) >= duration_days as i128
}

/// The first e-mail of `emails`, from position `from` on, that is due; the
/// length of `emails` when there is none.
pub open spec fn next_due(emails: Seq<Email>, from: int, now: i64, now_nanos: u32, duration_days: i64) -> int
    decreases emails.len() - from,
{
    if from < 0 || from >= emails.len() {
        emails.len() as int
    } else if is_due(now, now_nanos, emails[from].date, emails[from].date_nanos, duration_days) {
        from
    } else {
        next_due(emails, from + 1, now, now_nanos, duration_days)
    }
}

/// A label that the run puts on an e-mail.
pub enum LabelName {
    /// `PROMO`, for spam and promotions.
    Promo,
    /// The importance label given by the classifier.
    Classified(String),
}

/// The text of a label.
pub open spec fn label_text(l: LabelName) -> Seq<char> {
    match l {
        LabelName::Promo => "PROMO"@,
        LabelName::Classified(s) => s@,
    }
}

impl LabelName {
    /// The text of the label.
    pub fn text(&self) -> (r: String)
        ensures
            r@ == label_text(*self),
    {
        match self {
            LabelName::Promo => String::from_str("PROMO"),
            LabelName::Classified(s) => s.clone(),
        }
    }
}

/// The label that marks an e-mail as not yet read; the run removes it.
pub fn unread_label() -> (r: String)
    ensures
        r@ == "UNREAD"@,
{
    String::from_str("UNREAD")
}

/// Where a run stands: which outcome it waits for.
#[derive(Clone, Copy, PartialEq, Eq)]
pub enum SortPhase {
    Start,
    AwaitUnread,
    AwaitSpam { email: usize },
    AwaitPromoLabel { email: usize },
    AwaitPromoRead { email: usize },
    AwaitImportance { email: usize },
    AwaitLabel { email: usize },
    AwaitRead { email: usize },
    AwaitSave { email: usize },
    AwaitRules,
    AwaitRuleEmails { rule: usize },
    AwaitTrash { rule: usize, email: usize },
    Finished,
}

/// The outcome of the last action, handed to [`SortRun::step`].
pub enum SortEvent {
    /// Starts the run.
    Begin,
    /// The unread e-mails, or why they could not be fetched.
    Unread(Result<Vec<Email>, GraphonError>),
    /// Whether the e-mail is spam or a promotion.
    SpamVerdict(Result<bool, GraphonError>),
    /// The importance label of the e-mail.
    Importance(Result<String, GraphonError>),
    /// Labels applied or removed, e-mail saved or trashed.
    Done(Result<(), GraphonError>),
    /// The retention rules.
    Rules(Result<Vec<RetentionRule>, GraphonError>),
    /// The e-mails matching the current rule's query, and the current instant:
    /// whole seconds since the epoch, and the nanoseconds after that second.
    RuleEmails(Result<Vec<Email>, GraphonError>, i64, u32),
}

/// What the caller does next. E-mails are named by their position: in the
/// unread list, or for `Trash` in the current rule's list.
pub enum SortAction {
    FetchUnread,
    CheckSpam { email: usize },
    ClassifyImportance { email: usize },
    ApplyLabel { email: usize, label: LabelName },
    RemoveUnread { email: usize },
    SaveEmail { email: usize },
    FetchRules,
    FetchRuleEmails { rule: usize },
    Trash { email: usize },
    /// The run is over, with its result.
    Finish(Result<(), GraphonError>),
    /// The event does not answer the pending action; nothing changed.
    Rejected,
}

/// A mail sorting run.
pub struct SortRun {
    pub phase: SortPhase,
    pub emails: Vec<Email>,
    pub rules: Vec<RetentionRule>,
    pub rule_emails: Vec<Email>,
    pub now: i64,
    pub now_nanos: u32,
}

/// After e-mail `i` (handled or failed): the next e-mail, or the retention rules.
pub open spec fn after_email(run: SortRun, i: int) -> (SortRun, SortAction) {
    if i + 1 < run.emails@.len() {
        (SortRun { phase: SortPhase::AwaitSpam { email: (i + 1) as usize }, ..run }, SortAction::CheckSpam {
            email: (i + 1) as usize,
        })
    } else {
        (SortRun { phase: SortPhase::AwaitRules, ..run }, SortAction::FetchRules)
    }
}

/// Rule `r`: fetch its e-mails; past the last rule, the run is over.
pub open spec fn start_rule(run: SortRun, r: int) -> (SortRun, SortAction) {
    if 0 <= r < run.rules@.len() {
        (SortRun { phase: SortPhase::AwaitRuleEmails { rule: r as usize }, ..run }, SortAction::FetchRuleEmails {
            rule: r as usize,
        })
    } else {
        (SortRun { phase: SortPhase::Finished, ..run }, SortAction::Finish(Ok(())))
    }
}

/// Under rule `r`, trash the next due e-mail from position `from` on, or go to the next rule.
pub open spec fn trash_from(run: SortRun, r: int, from: int) -> (SortRun, SortAction) {
    let j = next_due(run.rule_emails@, from, run.now, run.now_nanos, run.rules@[r].duration_days);
    if j < run.rule_emails@.len() {
        (SortRun { phase: SortPhase::AwaitTrash { rule: r as usize, email: j as usize }, ..run }, SortAction::Trash {
            email: j as usize,
        })
    } else {
        start_rule(run, r + 1)
    }
}

/// One step of the run: the next state and action for an event.
pub open spec fn spec_step(run: SortRun, event: SortEvent) -> (SortRun, SortAction) {
    match (run.phase, event) {
        (SortPhase::Start, SortEvent::Begin) => (
            SortRun { phase: SortPhase::AwaitUnread, ..run },
            SortAction::FetchUnread,
        ),
        (SortPhase::AwaitUnread, SortEvent::Unread(Ok(list))) => after_email(SortRun { emails: list, ..run }, -1),
        (SortPhase::AwaitUnread, SortEvent::Unread(Err(e))) => (
            SortRun { phase: SortPhase::Finished, ..run },
            SortAction::Finish(Err(e)),
        ),
        (SortPhase::AwaitSpam { email }, SortEvent::SpamVerdict(Ok(true))) => (
            SortRun { phase: SortPhase::AwaitPromoLabel { email }, ..run },
            SortAction::ApplyLabel { email, label: LabelName::Promo },
        ),
        (SortPhase::AwaitSpam { email }, SortEvent::SpamVerdict(Ok(false))) => (
            SortRun { phase: SortPhase::AwaitImportance { email }, ..run },
            SortAction::ClassifyImportance { email },
        ),
        (SortPhase::AwaitSpam { email: _ }, SortEvent::SpamVerdict(Err(e))) => (
            SortRun { phase: SortPhase::Finished, ..run },
            SortAction::Finish(Err(e)),
        ),
        (SortPhase::AwaitPromoLabel { email }, SortEvent::Done(Ok(()))) => (
            SortRun { phase: SortPhase::AwaitPromoRead { email }, ..run },
            SortAction::RemoveUnread { email },
        ),
        (SortPhase::AwaitPromoLabel { email: _ }, SortEvent::Done(Err(e))) => (
            SortRun { phase: SortPhase::Finished, ..run },
            SortAction::Finish(Err(e)),
        ),
        (SortPhase::AwaitPromoRead { email }, SortEvent::Done(Ok(()))) => after_email(run, email as int),
        (SortPhase::AwaitPromoRead { email: _ }, SortEvent::Done(Err(e))) => (
            SortRun { phase: SortPhase::Finished, ..run },
            SortAction::Finish(Err(e)),
        ),
        (SortPhase::AwaitImportance { email }, SortEvent::Importance(Ok(label))) => (
            SortRun { phase: SortPhase::AwaitLabel { email }, ..run },
            SortAction::ApplyLabel { email, label: LabelName::Classified(label) },
        ),
        (SortPhase::AwaitImportance { email: _ }, SortEvent::Importance(Err(e))) => (
            SortRun { phase: SortPhase::Finished, ..run },
            SortAction::Finish(Err(e)),
        ),
        (SortPhase::AwaitLabel { email }, SortEvent::Done(Ok(()))) => (
            SortRun { phase: SortPhase::AwaitRead { email }, ..run },
            SortAction::RemoveUnread { email },
        ),
        (SortPhase::AwaitLabel { email: _ }, SortEvent::Done(Err(e))) => (
            SortRun { phase: SortPhase::Finished, ..run },
            SortAction::Finish(Err(e)),
        ),
        (SortPhase::AwaitRead { email }, SortEvent::Done(Ok(()))) => (
            SortRun { phase: SortPhase::AwaitSave { email }, ..run },
            SortAction::SaveEmail { email },
        ),
        (SortPhase::AwaitRead { email: _ }, SortEvent::Done(Err(e))) => (
            SortRun { phase: SortPhase::Finished, ..run },
            SortAction::Finish(Err(e)),
        ),
        (SortPhase::AwaitSave { email }, SortEvent::Done(Ok(()))) => after_email(run, email as int),
        (SortPhase::AwaitSave { email: _ }, SortEvent::Done(Err(e))) => (
            SortRun { phase: SortPhase::Finished, ..run },
            SortAction::Finish(Err(e)),
        ),
        (SortPhase::AwaitRules, SortEvent::Rules(Ok(rules))) => start_rule(SortRun { rules, ..run }, 0),
        (SortPhase::AwaitRules, SortEvent::Rules(Err(e))) => (
            SortRun { phase: SortPhase::Finished, ..run },
            SortAction::Finish(Err(e)),
        ),
        (SortPhase::AwaitRuleEmails { rule }, SortEvent::RuleEmails(Ok(list), now, now_nanos)) => trash_from(
            SortRun { rule_emails: list, now, now_nanos, ..run },
            rule as int,
            0,
        ),
        (SortPhase::AwaitRuleEmails { rule }, SortEvent::RuleEmails(Err(_), _, _)) => start_rule(run, rule + 1),
        (SortPhase::AwaitTrash { rule, email }, SortEvent::Done(_)) => trash_from(run, rule as int, email + 1),
        _ => (run, SortAction::Rejected),
    }
}

/// The positions and lists that a run refers to are consistent with its phase.
pub open spec fn run_wf(run: SortRun) -> bool {
    match run.phase {
        SortPhase::AwaitSpam { email } => email < run.emails.len(),
        SortPhase::AwaitPromoLabel { email } => email < run.emails.len(),
        SortPhase::AwaitPromoRead { email } => email < run.emails.len(),
        SortPhase::AwaitImportance { email } => email < run.emails.len(),
        SortPhase::AwaitLabel { email } => email < run.emails.len(),
        SortPhase::AwaitRead { email } => email < run.emails.len(),
        SortPhase::AwaitSave { email } => email < run.emails.len(),
        SortPhase::AwaitRuleEmails { rule } => rule < run.rules.len(),
        SortPhase::AwaitTrash { rule, email } => rule < run.rules.len() && email < run.rule_emails.len(),
        _ => true,
    }
}

/// The phases in which the run handles one unread e-mail, and which e-mail.
pub open spec fn email_phase(p: SortPhase) -> Option<usize> {
    match p {
        SortPhase::AwaitSpam { email } => Some(email),
        SortPhase::AwaitPromoLabel { email } => Some(email),
        SortPhase::AwaitPromoRead { email } => Some(email),
        SortPhase::AwaitImportance { email } => Some(email),
        SortPhase::AwaitLabel { email } => Some(email),
        SortPhase::AwaitRead { email } => Some(email),
        SortPhase::AwaitSave { email } => Some(email),
        _ => None,
    }
}

/// An e-mail is saved only once it has been classified, labelled with its
/// importance and had `UNREAD` removed: the step that saves e-mail `e` is the
/// one that learns that `UNREAD` was removed from it.
pub proof fn lemma_saved_only_after_labelling(run: SortRun, event: SortEvent, e: usize)
    requires
        spec_step(run, event).1 == (SortAction::SaveEmail { email: e }),
    ensures
        run.phase == (SortPhase::AwaitRead { email: e }),
        event matches SortEvent::Done(Ok(_)),
{
}

/// A spam or promotional e-mail is labelled `PROMO`, then loses `UNREAD`, and
/// is then left: it is never given an importance label nor saved, and the run
/// does not finish successfully on its account.
pub proof fn lemma_promo_path(run: SortRun, event: SortEvent, e: usize)
    requires
        run.phase == (SortPhase::AwaitPromoLabel { email: e }) || run.phase == (SortPhase::AwaitPromoRead { email: e }),
    ensures
        !(spec_step(run, event).1 is SaveEmail),
        !(spec_step(run, event).1 is ClassifyImportance),
        !(spec_step(run, event).1 matches SortAction::Finish(Ok(_))),
{
}

/// A spam verdict of `true` labels the e-mail `PROMO`; a verdict of `false`
/// asks for its importance.
pub proof fn lemma_spam_verdict(run: SortRun, verdict: bool, e: usize)
    requires
        run.phase == (SortPhase::AwaitSpam { email: e }),
    ensures
        verdict ==> spec_step(run, SortEvent::SpamVerdict(Ok(verdict))).1 == (SortAction::ApplyLabel {
            email: e,
            label: LabelName::Promo,
        }),
        !verdict ==> spec_step(run, SortEvent::SpamVerdict(Ok(verdict))).1 == (SortAction::ClassifyImportance {
            email: e,
        }),
{
}

/// A failure while handling an unread e-mail (the spam check, the
/// classification, a label change or the save) ends the run with that very
/// error: no later e-mail is handled and the retention rules are not run.
pub proof fn lemma_email_failure_ends_run(run: SortRun, event: SortEvent, err: GraphonError)
    requires
        email_phase(run.phase) is Some,
        event == SortEvent::SpamVerdict(Err(err)) || event == SortEvent::Importance(Err(err)) || event
            == SortEvent::Done(Err(err)),
        !(spec_step(run, event).1 is Rejected),
    ensures
        spec_step(run, event).0.phase == SortPhase::Finished,
        spec_step(run, event).1 == SortAction::Finish(Err(err)),
{
}

/// The run ends in failure only with the error of a failed step: fetching the
/// unread e-mails, handling one of them, or fetching the retention rules; the
/// retention purge itself never fails the run.
pub proof fn lemma_run_fails_only_with_step_error(run: SortRun, event: SortEvent, err: GraphonError)
    requires
        spec_step(run, event).1 == SortAction::Finish(Err(err)),
    ensures
        (run.phase == SortPhase::AwaitUnread && event == SortEvent::Unread(Err(err)))
            || (run.phase == SortPhase::AwaitRules && event == SortEvent::Rules(Err(err)))
            || (email_phase(run.phase) is Some && (event == SortEvent::SpamVerdict(Err(err)) || event
            == SortEvent::Importance(Err(err)) || event == SortEvent::Done(Err(err)))),
{
}

/// Every unread e-mail is handled, in order: the fetched list starts with the
/// spam check of e-mail 0 (or goes to the retention rules when it is empty),
/// and once e-mail `i` is done (saved, or a promotion marked read) the next
/// action is the spam check of e-mail `i + 1`, the retention rules coming only
/// after the last e-mail.
pub proof fn lemma_emails_handled_in_order(run: SortRun, list: Vec<Email>, i: usize)
    ensures
        run.phase == SortPhase::AwaitUnread ==> {
            let next = spec_step(run, SortEvent::Unread(Ok(list)));
            &&& next.0.emails == list
            &&& list@.len() > 0 ==> next.1 == (SortAction::CheckSpam { email: 0 }) && next.0.phase
                == (SortPhase::AwaitSpam { email: 0 })
            &&& list@.len() == 0 ==> next.1 == SortAction::FetchRules
        },
        (run.phase == (SortPhase::AwaitSave { email: i }) || run.phase == (SortPhase::AwaitPromoRead {
            email: i,
        })) ==> {
            let next = spec_step(run, SortEvent::Done(Ok(())));
            &&& next.0.emails == run.emails
            &&& i + 1 < run.emails@.len() ==> next.1 == (SortAction::CheckSpam { email: (i + 1) as usize })
                && next.0.phase == (SortPhase::AwaitSpam { email: (i + 1) as usize })
            &&& i + 1 >= run.emails@.len() ==> next.1 == SortAction::FetchRules && next.0.phase
                == SortPhase::AwaitRules
        },
{
}

/// The unread e-mails, once fetched, stay as they were for the rest of the run.
pub proof fn lemma_unread_list_kept(run: SortRun, event: SortEvent)
    requires
        run.phase != SortPhase::AwaitUnread,
    ensures
        spec_step(run, event).0.emails == run.emails,
{
}

/// An event that does not answer the pending action changes nothing.
pub proof fn lemma_rejected_changes_nothing(run: SortRun, event: SortEvent)
    requires
        spec_step(run, event).1 is Rejected,
    ensures
        spec_step(run, event).0 == run,
{
}

/// The first due e-mail from `from` on is due, and every e-mail passed over before it is not.
pub proof fn lemma_next_due(emails: Seq<Email>, from: int, now: i64, now_nanos: u32, duration_days: i64)
    requires
        0 <= from,
    ensures
        from <= next_due(emails, from, now, now_nanos, duration_days) || next_due(emails, from, now, now_nanos, duration_days) == emails.len(),
        next_due(emails, from, now, now_nanos, duration_days) <= emails.len(),
        next_due(emails, from, now, now_nanos, duration_days) < emails.len() ==> is_due(
            now,
            now_nanos,
            emails[next_due(emails, from, now, now_nanos, duration_days)].date,
            emails[next_due(emails, from, now, now_nanos, duration_days)].date_nanos,
            duration_days,
        ),
        forall|k: int| from <= k < next_due(emails, from, now, now_nanos, duration_days) ==> !is_due(
            now,
            now_nanos,
            #[trigger] emails[k].date,
            emails[k].date_nanos,
            duration_days,
        ),
    decreases emails.len() - from,
{
    if from < emails.len() && !is_due(now, now_nanos, emails[from].date, emails[from].date_nanos, duration_days) {
        lemma_next_due(emails, from + 1, now, now_nanos, duration_days);
    }
}

/// Retention trashes exactly the due e-mails: each e-mail the run trashes is
/// at least as old, in whole days, as its rule's duration, and every e-mail of
/// the rule's list that it passes over on the way is younger.
pub proof fn lemma_trash_only_due(run: SortRun, event: SortEvent, j: usize)
    requires
        run_wf(run),
        spec_step(run, event).1 == (SortAction::Trash { email: j }),
    ensures
        ({
            let next = spec_step(run, event).0;
            next.phase matches SortPhase::AwaitTrash { rule, email } && email == j && rule < next.rules@.len()
                && is_due(
                    next.now,
                    next.now_nanos,
                    next.rule_emails@[j as int].date,
                    next.rule_emails@[j as int].date_nanos,
                    next.rules@[rule as int].duration_days,
                )
                && forall|k: int|
                #![trigger next.rule_emails@[k]]
                (match run.phase {
                    SortPhase::AwaitTrash { rule: _, email } => email < k,
                    _ => 0 <= k,
                }) && k < j ==> !is_due(
                    next.now,
                    next.now_nanos,
                    next.rule_emails@[k].date,
                    next.rule_emails@[k].date_nanos,
                    next.rules@[rule as int].duration_days,
                )
        }),
{
    let next = spec_step(run, event).0;
    match (run.phase, event) {
        (SortPhase::AwaitRuleEmails { rule }, SortEvent::RuleEmails(Ok(list), now, now_nanos)) => {
            lemma_next_due(list@, 0, now, now_nanos, run.rules@[rule as int].duration_days);
            let n = next_due(list@, 0, now, now_nanos, run.rules@[rule as int].duration_days);
            assert(n < list@.len());
            assert(next.rule_emails == list);
            assert(next.rules == run.rules);
            assert(next.now == now);
            assert(next.now_nanos == now_nanos);
            let run2 = SortRun { rule_emails: list, now, now_nanos, ..run };
            assert(spec_step(run, event) == trash_from(run2, rule as int, 0));
            assert(trash_from(run2, rule as int, 0).1 == (SortAction::Trash { email: n as usize }));
            assert(n >= 0);
            assert(list@.len() == list.len());
            assert(n == j);
        },
        (SortPhase::AwaitTrash { rule, email }, SortEvent::Done(_)) => {
            lemma_next_due(run.rule_emails@, email + 1, run.now, run.now_nanos, run.rules@[rule as int].duration_days);
            let n = next_due(run.rule_emails@, email + 1, run.now, run.now_nanos, run.rules@[rule as int].duration_days);
            assert(spec_step(run, event) == trash_from(run, rule as int, email + 1));
            assert(n < run.rule_emails@.len());
            assert(trash_from(run, rule as int, email + 1).1 == (SortAction::Trash { email: n as usize }));
            assert(n >= 0);
            assert(n as usize == j);
            assert(n == j);
        },
        _ => {},
    }
}

impl SortRun {
    /// Whether the positions this run refers to are consistent with its phase
    /// (always so for a run made by [`SortRun::new`] and advanced by [`SortRun::step`]).
    pub fn well_formed(&self) -> (r: bool)
        ensures
            r == run_wf(*self),
    {
        match self.phase {
            SortPhase::AwaitSpam { email } => email < self.emails.len(),
            SortPhase::AwaitPromoLabel { email } => email < self.emails.len(),
            SortPhase::AwaitPromoRead { email } => email < self.emails.len(),
            SortPhase::AwaitImportance { email } => email < self.emails.len(),
            SortPhase::AwaitLabel { email } => email < self.emails.len(),
            SortPhase::AwaitRead { email } => email < self.emails.len(),
            SortPhase::AwaitSave { email } => email < self.emails.len(),
            SortPhase::AwaitRuleEmails { rule } => rule < self.rules.len(),
            SortPhase::AwaitTrash { rule, email } => rule < self.rules.len() && email < self.rule_emails.len(),
            _ => true,
        }
    }
    /// A run that has not started.
    pub fn new() -> (r: SortRun)
        ensures
            r.phase == SortPhase::Start,
            r.emails@.len() == 0,
            r.rules@.len() == 0,
            r.rule_emails@.len() == 0,
            run_wf(r),
    {
        SortRun { phase: SortPhase::Start, emails: Vec::new(), rules: Vec::new(), rule_emails: Vec::new(), now: 0, now_nanos: 0 }
    }

    fn after_email(self, i: usize) -> (r: (SortRun, SortAction))
        requires
            i < self.emails.len(),
        ensures
            r == after_email(self, i as int),
            run_wf(r.0),
    {
        if i + 1 < self.emails.len() {
            (SortRun { phase: SortPhase::AwaitSpam { email: i + 1 }, ..self }, SortAction::CheckSpam { email: i + 1 })
        } else {
            (SortRun { phase: SortPhase::AwaitRules, ..self }, SortAction::FetchRules)
        }
    }

    fn start_rule(self, r: usize) -> (res: (SortRun, SortAction))
        ensures
            res == start_rule(self, r as int),
            run_wf(res.0),
    {
        if r < self.rules.len() {
            (SortRun { phase: SortPhase::AwaitRuleEmails { rule: r }, ..self }, SortAction::FetchRuleEmails { rule: r })
        } else {
            (SortRun { phase: SortPhase::Finished, ..self }, SortAction::Finish(Ok(())))
        }
    }

    fn trash_from(self, r: usize, from: usize) -> (res: (SortRun, SortAction))
        requires
            r < self.rules.len(),
        ensures
            res == trash_from(self, r as int, from as int),
            run_wf(res.0),
    {
        let duration = self.rules[r].duration_days;
        let mut j = from;
        while j < self.rule_emails.len() && !should_trash(
            self.now,
            self.now_nanos,
            self.rule_emails[j].date,
            self.rule_emails[j].date_nanos,
            duration,
        )
            invariant
                from <= j,
                next_due(self.rule_emails@, from as int, self.now, self.now_nanos, duration) == next_due(
                    self.rule_emails@,
                    j as int,
                    self.now,
                    self.now_nanos,
                    duration,
                ),
                r < self.rules.len(),
                duration == self.rules@[r as int].duration_days,
            decreases self.rule_emails@.len() - j,
        {
            j += 1;
        }
        if j < self.rule_emails.len() {
            (SortRun { phase: SortPhase::AwaitTrash { rule: r, email: j }, ..self }, SortAction::Trash { email: j })
        } else {
            self.start_rule(r + 1)
        }
    }

    /// Takes the outcome of the pending action and returns the run's next
    /// state and action, as [`spec_step`] says: each unread e-mail is checked
    /// for spam; spam and promotions get `PROMO` and lose `UNREAD`; other
    /// e-mails get their importance label, lose `UNREAD` and are saved; the
    /// first failure while handling an e-mail ends the run with its error.
    /// Then, rule by rule, the e-mails matching its query are trashed once
    /// they are old enough; a failed query skips the rule and a failed trash
    /// is passed over. The run also fails when the unread e-mails or the rules
    /// cannot be fetched.
    pub fn step(self, event: SortEvent) -> (r: (SortRun, SortAction))
        requires
            run_wf(self),
        ensures
            r == spec_step(self, event),
            run_wf(r.0),
    {
        match (self.phase, event) {
            (SortPhase::Start, SortEvent::Begin) => (
                SortRun { phase: SortPhase::AwaitUnread, ..self },
                SortAction::FetchUnread,
            ),
            (SortPhase::AwaitUnread, SortEvent::Unread(Ok(list))) => {
                let run = SortRun { emails: list, ..self };
                if 0 < run.emails.len() {
                    (SortRun { phase: SortPhase::AwaitSpam { email: 0 }, ..run }, SortAction::CheckSpam { email: 0 })
                } else {
                    (SortRun { phase: SortPhase::AwaitRules, ..run }, SortAction::FetchRules)
                }
            },
            (SortPhase::AwaitUnread, SortEvent::Unread(Err(e))) => (
                SortRun { phase: SortPhase::Finished, ..self },
                SortAction::Finish(Err(e)),
            ),
            (SortPhase::AwaitSpam { email }, SortEvent::SpamVerdict(Ok(verdict))) => {
                if verdict {
                    (
                        SortRun { phase: SortPhase::AwaitPromoLabel { email }, ..self },
                        SortAction::ApplyLabel { email, label: LabelName::Promo },
                    )
                } else {
                    (
                        SortRun { phase: SortPhase::AwaitImportance { email }, ..self },
                        SortAction::ClassifyImportance { email },
                    )
                }
            },
            (SortPhase::AwaitSpam { email: _ }, SortEvent::SpamVerdict(Err(e))) => (
                SortRun { phase: SortPhase::Finished, ..self },
                SortAction::Finish(Err(e)),
            ),
            (SortPhase::AwaitPromoLabel { email }, SortEvent::Done(Ok(()))) => (
                SortRun { phase: SortPhase::AwaitPromoRead { email }, ..self },
                SortAction::RemoveUnread { email },
            ),
            (SortPhase::AwaitPromoLabel { email: _ }, SortEvent::Done(Err(e))) => (
                SortRun { phase: SortPhase::Finished, ..self },
                SortAction::Finish(Err(e)),
            ),
            (SortPhase::AwaitPromoRead { email }, SortEvent::Done(Ok(()))) => self.after_email(email),
            (SortPhase::AwaitPromoRead { email: _ }, SortEvent::Done(Err(e))) => (
                SortRun { phase: SortPhase::Finished, ..self },
                SortAction::Finish(Err(e)),
            ),
            (SortPhase::AwaitImportance { email }, SortEvent::Importance(Ok(label))) => (
                SortRun { phase: SortPhase::AwaitLabel { email }, ..self },
                SortAction::ApplyLabel { email, label: LabelName::Classified(label) },
            ),
            (SortPhase::AwaitImportance { email: _ }, SortEvent::Importance(Err(e))) => (
                SortRun { phase: SortPhase::Finished, ..self },
                SortAction::Finish(Err(e)),
            ),
            (SortPhase::AwaitLabel { email }, SortEvent::Done(Ok(()))) => (
                SortRun { phase: SortPhase::AwaitRead { email }, ..self },
                SortAction::RemoveUnread { email },
            ),
            (SortPhase::AwaitLabel { email: _ }, SortEvent::Done(Err(e))) => (
                SortRun { phase: SortPhase::Finished, ..self },
                SortAction::Finish(Err(e)),
            ),
            (SortPhase::AwaitRead { email }, SortEvent::Done(Ok(()))) => (
                SortRun { phase: SortPhase::AwaitSave { email }, ..self },
                SortAction::SaveEmail { email },
            ),
            (SortPhase::AwaitRead { email: _ }, SortEvent::Done(Err(e))) => (
                SortRun { phase: SortPhase::Finished, ..self },
                SortAction::Finish(Err(e)),
            ),
            (SortPhase::AwaitSave { email }, SortEvent::Done(Ok(()))) => self.after_email(email),
            (SortPhase::AwaitSave { email: _ }, SortEvent::Done(Err(e))) => (
                SortRun { phase: SortPhase::Finished, ..self },
                SortAction::Finish(Err(e)),
            ),
            (SortPhase::AwaitRules, SortEvent::Rules(Ok(rules))) => SortRun { rules, ..self }.start_rule(0),
            (SortPhase::AwaitRules, SortEvent::Rules(Err(e))) => (
                SortRun { phase: SortPhase::Finished, ..self },
                SortAction::Finish(Err(e)),
            ),
            (SortPhase::AwaitRuleEmails { rule }, SortEvent::RuleEmails(Ok(list), now, now_nanos)) => SortRun {
                rule_emails: list,
                now,
                now_nanos,
                ..self
            }.trash_from(rule, 0),
            (SortPhase::AwaitRuleEmails { rule }, SortEvent::RuleEmails(Err(_), _, _)) => self.start_rule(rule + 1),
            (SortPhase::AwaitTrash { rule, email }, SortEvent::Done(_)) => self.trash_from(rule, email + 1),
            (_, event) => (self, SortAction::Rejected),
        }
    }
}

} // verus!

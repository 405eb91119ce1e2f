//! Sorting Gmail labels into categories, and choosing which labels a cleanup,
//! a consolidation or a deletion by name acts on.
use vstd::prelude::*;
use crate::entities::{is_system_name, message_count, LabelCategory, LabelInfo};
use crate::error::GraphonError;
use crate::text::{
    contains, contains_char, eq_ascii_ci, eq_ignore_ascii_case, has_char, has_prefix, has_substring,
    starts_with, str_eq, to_lowercase, unicode_lowercase,
};

verus! {

/// The labels that Graphon itself creates and manages.
pub open spec fn graphon_label_names() -> Seq<&'static str> {
    seq!["PROMO", "NORMAL", "URGENT"]
}

/// Gmail's colour and star labels.
pub open spec fn star_label_names() -> Seq<&'static str> {
    seq![
        "GREEN_CIRCLE", "ORANGE_CIRCLE", "RED_CIRCLE", "YELLOW_CIRCLE", "BLUE_STAR",
        "GREEN_STAR", "ORANGE_STAR", "PURPLE_STAR", "RED_STAR", "YELLOW_STAR",
    ]
}

/// Keywords whose presence in a lower-cased label name marks it as promotional.
pub open spec fn promo_label_keywords() -> Seq<&'static str> {
    seq!["promo", "newsletter", "notification", "market", "shop", "deal", "offer"]
}

/// `name` equals, up to ASCII case, one of `list`.
pub open spec fn in_list_ci(list: Seq<&str>, name: Seq<char>) -> bool {
    exists|i: int| 0 <= i < list.len() && eq_ascii_ci(#[trigger] list[i]@, name)
}

/// `text` contains one of the keywords of `list`.
pub open spec fn has_any_keyword(text: Seq<char>, list: Seq<&str>) -> bool {
    exists|i: int| 0 <= i < list.len() && has_substring(text, #[trigger] list[i]@)
}

/// The label is one that Graphon manages.
pub open spec fn spec_is_graphon_label(name: Seq<char>) -> bool {
    in_list_ci(graphon_label_names(), name)
}

/// The label is one of Gmail's colour or star labels.
pub open spec fn spec_is_star_label(name: Seq<char>) -> bool {
    in_list_ci(star_label_names(), name)
}

/// The label name is hierarchical: it holds a `/` or a `\`.
pub open spec fn spec_is_nested_label(name: Seq<char>) -> bool {
    has_char(name, '/') || has_char(name, '\\')
}

/// The lower-cased label name holds a promotional keyword.
pub open spec fn spec_match_promo_keywords(name: Seq<char>) -> bool {
    has_any_keyword(unicode_lowercase(name), promo_label_keywords())
}

/// Whether `name` equals one of `list` up to ASCII case.
fn matches_any_ci(list: &[&str], name: &str) -> (r: bool)
    ensures
        r == in_list_ci(list@, name@),
{
    let mut i: usize = 0;
    while i < list.len()
        invariant
            i <= list@.len(),
            forall|j: int| 0 <= j < i ==> !eq_ascii_ci(#[trigger] list@[j]@, name@),
        decreases list@.len() - i,
    {
        if eq_ignore_ascii_case(list[i], name) {
            return true;
        }
        i += 1;
    }
    false
}

/// Whether `text` contains one of the keywords of `list`.
pub fn contains_any(text: &str, list: &[&str]) -> (r: bool)
    ensures
        r == has_any_keyword(text@, list@),
{
    let mut i: usize = 0;
    while i < list.len()
        invariant
            i <= list@.len(),
            forall|j: int| 0 <= j < i ==> !has_substring(text@, #[trigger] list@[j]@),
        decreases list@.len() - i,
    {
        if contains(text, list[i]) {
            return true;
        }
        i += 1;
    }
    false
}

/// Whether the label is one of those Graphon manages (PROMO, NORMAL, URGENT), any ASCII case.
pub fn is_graphon_label(name: &str) -> (r: bool)
    ensures
        r == spec_is_graphon_label(name@),
{
    let names: [&str; 3] = ["PROMO", "NORMAL", "URGENT"];
    assert(names@ =~= graphon_label_names());
    matches_any_ci(&names, name)
}

/// Whether the label is one of Gmail's colour or star labels, any ASCII case.
pub fn is_star_label(name: &str) -> (r: bool)
    ensures
        r == spec_is_star_label(name@),
{
    let names: [&str; 10] = [
        "GREEN_CIRCLE", "ORANGE_CIRCLE", "RED_CIRCLE", "YELLOW_CIRCLE", "BLUE_STAR",
        "GREEN_STAR", "ORANGE_STAR", "PURPLE_STAR", "RED_STAR", "YELLOW_STAR",
    ];
    assert(names@ =~= star_label_names());
    matches_any_ci(&names, name)
}

/// Whether the label name is hierarchical: it holds a `/` or a `\`.
pub fn is_nested_label(name: &str) -> (r: bool)
    ensures
        r == spec_is_nested_label(name@),
{
    contains_char(name, '/') || contains_char(name, '\\')
}

/// Whether the lower-cased label name holds a promotional keyword.
pub fn match_promo_keywords(name: &str) -> (r: bool)
    ensures
        r == spec_match_promo_keywords(name@),
{
    let lower = to_lowercase(name);
    let keywords: [&str; 7] = ["promo", "newsletter", "notification", "market", "shop", "deal", "offer"];
    assert(keywords@ =~= promo_label_keywords());
    contains_any(lower.as_str(), &keywords)
}


// ---------------------------------------------------------------------------
// Analysis: every label goes to the first category whose rule it meets.
// ---------------------------------------------------------------------------

/// The number of label categories.
pub open spec fn category_count() -> int {
    8
}

/// The category of a label: the first of these rules that the label meets.
/// 0 system, 1 managed by Graphon, 2 star or colour, 3 nested, 4 empty,
/// 5 promotional, 6 fewer than 5 messages, 7 at least 5 messages.
pub open spec fn category_of(l: LabelInfo) -> int {
    if is_system_name(l.name@) {
        0
    } else if spec_is_graphon_label(l.name@) {
        1
    } else if spec_is_star_label(l.name@) {
        2
    } else if spec_is_nested_label(l.name@) {
        3
    } else if message_count(l) == 0 {
        4
    } else if spec_match_promo_keywords(l.name@) {
        5
    } else if message_count(l) < 5 {
        6
    } else {
        7
    }
}

/// The name of each category, in category order.
pub open spec fn category_names() -> Seq<&'static str> {
    seq!["system", "graphon", "stars", "nested", "empty_unused", "promotional", "low_usage", "active"]
}

/// The description of each category, in category order.
pub open spec fn category_descriptions() -> Seq<&'static str> {
    seq![
        "Étiquettes système Gmail (conservées automatiquement)",
        "Étiquettes gérées par Graphon (tri automatique)",
        "Étiquettes d'étoiles/couleurs Gmail",
        "Étiquettes hiérarchiques (organisation manuelle)",
        "Étiquettes plates sans messages (nettoyable)",
        "Étiquettes promotionnelles/newsletters (peuvent être consolidées)",
        "Étiquettes peu utilisées (< 5 messages)",
        "Étiquettes actives avec contenu",
    ]
}

/// The suggested action for each category, in category order.
pub open spec fn category_actions() -> Seq<&'static str> {
    seq!["keep", "keep", "keep", "keep", "delete", "consolidate", "review", "keep"]
}

/// The labels of `s` whose category is `k`, in the order of `s`.
pub open spec fn labels_in(s: Seq<LabelInfo>, k: int) -> Seq<LabelInfo>
    decreases s.len(),
{
    if s.len() == 0 {
        Seq::empty()
    } else {
        let rest = labels_in(s.drop_last(), k);
        if category_of(s.last()) == k {
            rest.push(s.last())
        } else {
            rest
        }
    }
}

/// The mathematical model of a [`LabelCategory`].
pub struct CategoryModel {
    pub name: Seq<char>,
    pub labels: Seq<LabelInfo>,
    pub description: Seq<char>,
    pub action: Seq<char>,
}

impl View for LabelCategory {
    type V = CategoryModel;

    open spec fn view(&self) -> CategoryModel {
        CategoryModel {
            name: self.name@,
            labels: self.labels@,
            description: self.description@,
            action: self.action@,
        }
    }
}

/// The category `k` holding the labels `labels`.
pub open spec fn category_model(k: int, labels: Seq<LabelInfo>) -> CategoryModel {
    CategoryModel {
        name: category_names()[k]@,
        labels: labels,
        description: category_descriptions()[k]@,
        action: category_actions()[k]@,
    }
}

/// The non-empty categories of `s` from category `k` on, in category order.
pub open spec fn categories_from(s: Seq<LabelInfo>, k: int) -> Seq<CategoryModel>
    decreases category_count() - k,
{
    if k >= category_count() || k < 0 {
        Seq::empty()
    } else if labels_in(s, k).len() > 0 {
        seq![category_model(k, labels_in(s, k))] + categories_from(s, k + 1)
    } else {
        categories_from(s, k + 1)
    }
}

/// The analysis of a list of labels: its non-empty categories, in category order.
pub open spec fn spec_analyze_labels(s: Seq<LabelInfo>) -> Seq<CategoryModel> {
    categories_from(s, 0)
}

/// The number of labels held by a list of categories.
pub open spec fn total_labels(cats: Seq<CategoryModel>) -> int
    decreases cats.len(),
{
    if cats.len() == 0 {
        0
    } else {
        cats[0].labels.len() + total_labels(cats.drop_first())
    }
}

/// The number of labels of `s` in categories `k` and after.
pub open spec fn labels_from(s: Seq<LabelInfo>, k: int) -> int
    decreases category_count() - k,
{
    if k >= category_count() || k < 0 {
        0
    } else {
        labels_in(s, k).len() + labels_from(s, k + 1)
    }
}

proof fn lemma_category_range(l: LabelInfo)
    ensures
        0 <= category_of(l) < category_count(),
{
}

proof fn lemma_labels_in_members(s: Seq<LabelInfo>, k: int)
    ensures
        forall|j: int| 0 <= j < labels_in(s, k).len() ==> category_of(#[trigger] labels_in(s, k)[j]) == k
            && s.contains(labels_in(s, k)[j]),
    decreases s.len(),
{
    if s.len() > 0 {
        lemma_labels_in_members(s.drop_last(), k);
        let rest = labels_in(s.drop_last(), k);
        assert forall|j: int| 0 <= j < labels_in(s, k).len() implies category_of(#[trigger] labels_in(s, k)[j]) == k
            && s.contains(labels_in(s, k)[j]) by {
            if j < rest.len() {
                assert(labels_in(s, k)[j] == rest[j]);
                let m = choose|m: int| 0 <= m < s.drop_last().len() && s.drop_last()[m] == rest[j];
                assert(s[m] == rest[j]);
            } else {
                assert(s[s.len() - 1] == s.last());
            }
        }
    }
}

proof fn lemma_labels_in_holds(s: Seq<LabelInfo>, i: int)
    requires
        0 <= i < s.len(),
    ensures
        labels_in(s, category_of(s[i])).contains(s[i]),
    decreases s.len(),
{
    let k = category_of(s[i]);
    if i == s.len() - 1 {
        let r = labels_in(s, k);
        assert(r[r.len() - 1] == s[i]);
    } else {
        lemma_labels_in_holds(s.drop_last(), i);
        let rest = labels_in(s.drop_last(), k);
        let m = choose|m: int| 0 <= m < rest.len() && rest[m] == s.drop_last()[i];
        assert(labels_in(s, k)[m] == rest[m]);
    }
}

proof fn lemma_labels_from_step(s: Seq<LabelInfo>, k: int)
    requires
        s.len() > 0,
        0 <= k,
    ensures
        labels_from(s, k) == labels_from(s.drop_last(), k) + (if k <= category_of(s.last()) { 1int } else { 0 }),
    decreases category_count() - k,
{
    lemma_category_range(s.last());
    if k < category_count() {
        lemma_labels_from_step(s, k + 1);
    }
}

proof fn lemma_labels_from_total(s: Seq<LabelInfo>)
    ensures
        labels_from(s, 0) == s.len(),
    decreases s.len(),
{
    if s.len() > 0 {
        lemma_labels_from_total(s.drop_last());
        lemma_labels_from_step(s, 0);
        lemma_category_range(s.last());
    } else {
        lemma_labels_from_empty(s, 0);
    }
}

proof fn lemma_labels_from_empty(s: Seq<LabelInfo>, k: int)
    requires
        s.len() == 0,
    ensures
        labels_from(s, k) == 0,
    decreases category_count() - k,
{
    if 0 <= k < category_count() {
        lemma_labels_from_empty(s, k + 1);
    }
}

proof fn lemma_categories_total(s: Seq<LabelInfo>, k: int)
    requires
        0 <= k,
    ensures
        total_labels(categories_from(s, k)) == labels_from(s, k),
    decreases category_count() - k,
{
    if k < category_count() {
        lemma_categories_total(s, k + 1);
        if labels_in(s, k).len() > 0 {
            let c = seq![category_model(k, labels_in(s, k))] + categories_from(s, k + 1);
            assert(c.drop_first() =~= categories_from(s, k + 1));
        }
    }
}

proof fn lemma_categories_members(s: Seq<LabelInfo>, k: int)
    requires
        0 <= k,
    ensures
        forall|c: int| #![trigger categories_from(s, k)[c]] 0 <= c < categories_from(s, k).len() ==> exists|j: int|
            #![trigger category_model(j, labels_in(s, j))]
            k <= j < category_count() && labels_in(s, j).len() > 0
                && categories_from(s, k)[c] == category_model(j, labels_in(s, j)),
    decreases category_count() - k,
{
    if k < category_count() {
        lemma_categories_members(s, k + 1);
        let tail = categories_from(s, k + 1);
        assert forall|c: int| #![trigger categories_from(s, k)[c]] 0 <= c < categories_from(s, k).len() implies exists|j: int|
            #![trigger category_model(j, labels_in(s, j))]
            k <= j < category_count() && labels_in(s, j).len() > 0
                && categories_from(s, k)[c] == category_model(j, labels_in(s, j)) by {
            if labels_in(s, k).len() > 0 {
                if c == 0 {
                    assert(categories_from(s, k)[c] == category_model(k, labels_in(s, k)));
                } else {
                    assert(categories_from(s, k)[c] == tail[c - 1]);
                    let j = choose|j: int|
                        #![trigger category_model(j, labels_in(s, j))]
                        k + 1 <= j < category_count() && labels_in(s, j).len() > 0
                            && tail[c - 1] == category_model(j, labels_in(s, j));
                    assert(categories_from(s, k)[c] == category_model(j, labels_in(s, j)));
                }
            } else {
                let j = choose|j: int|
                    #![trigger category_model(j, labels_in(s, j))]
                    k + 1 <= j < category_count() && labels_in(s, j).len() > 0
                        && tail[c] == category_model(j, labels_in(s, j));
                assert(categories_from(s, k)[c] == category_model(j, labels_in(s, j)));
            }
        }
    }
}

/// The analysis partitions the labels: the categories together hold exactly as
/// many labels as were given; every returned category is non-empty and is the
/// category of each label it holds, with that category's name and action; and
/// every label given is held by the category that its rules choose.
pub proof fn lemma_analysis_partitions(s: Seq<LabelInfo>)
    ensures
        total_labels(spec_analyze_labels(s)) == s.len(),
        forall|c: int, m: int|
            #![trigger spec_analyze_labels(s)[c].labels[m]]
            0 <= c < spec_analyze_labels(s).len() && 0 <= m < spec_analyze_labels(s)[c].labels.len() ==> {
                &&& s.contains(spec_analyze_labels(s)[c].labels[m])
                &&& spec_analyze_labels(s)[c] == category_model(
                    category_of(spec_analyze_labels(s)[c].labels[m]),
                    labels_in(s, category_of(spec_analyze_labels(s)[c].labels[m])),
                )
            },
        forall|c: int| 0 <= c < spec_analyze_labels(s).len() ==> (#[trigger] spec_analyze_labels(s)[c]).labels.len() > 0,
        forall|i: int| 0 <= i < s.len() ==> labels_in(s, category_of(#[trigger] s[i])).contains(s[i]),
{
    lemma_categories_total(s, 0);
    lemma_labels_from_total(s);
    lemma_categories_members(s, 0);
    assert forall|c: int, m: int|
        #![trigger spec_analyze_labels(s)[c].labels[m]]
        0 <= c < spec_analyze_labels(s).len() && 0 <= m < spec_analyze_labels(s)[c].labels.len() implies {
            &&& s.contains(spec_analyze_labels(s)[c].labels[m])
            &&& spec_analyze_labels(s)[c] == category_model(
                category_of(spec_analyze_labels(s)[c].labels[m]),
                labels_in(s, category_of(spec_analyze_labels(s)[c].labels[m])),
            )
        } by {
        let j = choose|j: int|
            #![trigger category_model(j, labels_in(s, j))]
            0 <= j < category_count() && labels_in(s, j).len() > 0
                && categories_from(s, 0)[c] == category_model(j, labels_in(s, j));
        lemma_labels_in_members(s, j);
        assert(category_of(labels_in(s, j)[m]) == j);
    }
    assert forall|i: int| 0 <= i < s.len() implies labels_in(s, category_of(#[trigger] s[i])).contains(s[i]) by {
        lemma_labels_in_holds(s, i);
    }
}

/// The category of a label, by the rules of [`category_of`].
pub fn category_index(l: &LabelInfo) -> (k: usize)
    ensures
        k == category_of(*l),
{
    let count: i64 = match l.messages_total {
        Some(n) => n,
        None => 0,
    };
    if l.is_system() {
        0
    } else if is_graphon_label(l.name.as_str()) {
        1
    } else if is_star_label(l.name.as_str()) {
        2
    } else if is_nested_label(l.name.as_str()) {
        3
    } else if l.is_empty() {
        4
    } else if match_promo_keywords(l.name.as_str()) {
        5
    } else if count < 5 {
        6
    } else {
        7
    }
}

/// Sorts the labels into categories (system, graphon, stars, nested,
/// empty_unused, promotional, low_usage, active): each label goes to the first
/// category whose rule it meets, labels keep their order, and only non-empty
/// categories are returned, in that order, each with its description and
/// suggested action.
pub fn analyze_labels(labels: &Vec<LabelInfo>) -> (r: Vec<LabelCategory>)
    ensures
        r@.map_values(|c: LabelCategory| c@) == spec_analyze_labels(labels@),
{
    let mut buckets: Vec<Vec<LabelInfo>> = Vec::new();
    let mut k: usize = 0;
    while k < 8
        invariant
            k <= 8,
            buckets@.len() == k,
            forall|j: int| 0 <= j < k ==> (#[trigger] buckets@[j])@ == Seq::<LabelInfo>::empty(),
        decreases 8 - k,
    {
        buckets.push(Vec::new());
        k += 1;
    }
    let mut i: usize = 0;
    while i < labels.len()
        invariant
            i <= labels.len(),
            buckets@.len() == 8,
            forall|j: int| 0 <= j < 8 ==> (#[trigger] buckets@[j])@ == labels_in(labels@.take(i as int), j),
        decreases labels.len() - i,
    {
        let c = category_index(&labels[i]);
        let copy = labels[i].clone();
        let ghost before = buckets@;
        buckets[c].push(copy);
        proof {
            assert(labels@.take(i + 1).drop_last() =~= labels@.take(i as int));
            assert(labels@.take(i + 1).last() == labels@[i as int]);
            assert forall|j: int| 0 <= j < 8 implies (#[trigger] buckets@[j])@ == labels_in(labels@.take(i + 1), j) by {
                if j != c {
                    assert(buckets@[j] == before[j]);
                }
            }
        }
        i += 1;
    }
    assert(labels@.take(labels.len() as int) =~= labels@);
    let names: [&str; 8] = ["system", "graphon", "stars", "nested", "empty_unused", "promotional", "low_usage", "active"];
    let descriptions: [&str; 8] = [
        "Étiquettes système Gmail (conservées automatiquement)",
        "Étiquettes gérées par Graphon (tri automatique)",
        "Étiquettes d'étoiles/couleurs Gmail",
        "Étiquettes hiérarchiques (organisation manuelle)",
        "Étiquettes plates sans messages (nettoyable)",
        "Étiquettes promotionnelles/newsletters (peuvent être consolidées)",
        "Étiquettes peu utilisées (< 5 messages)",
        "Étiquettes actives avec contenu",
    ];
    let actions: [&str; 8] = ["keep", "keep", "keep", "keep", "delete", "consolidate", "review", "keep"];
    assert(names@ =~= category_names());
    assert(descriptions@ =~= category_descriptions());
    assert(actions@ =~= category_actions());
    let mut out: Vec<LabelCategory> = Vec::new();
    let mut k: usize = 8;
    // Categories are added from the last one back, each in front of the ones after it.
    while k > 0
        invariant
            k <= 8,
            buckets@.len() == 8,
            forall|j: int| 0 <= j < 8 ==> (#[trigger] buckets@[j])@ == labels_in(labels@, j),
            names@ == category_names(),
            descriptions@ == category_descriptions(),
            actions@ == category_actions(),
            out@.map_values(|c: LabelCategory| c@) == categories_from(labels@, k as int),
        decreases k,
    {
        k -= 1;
        let ghost tail = out@.map_values(|c: LabelCategory| c@);
        if buckets[k].len() > 0 {
            let cat = LabelCategory {
                name: names[k].to_owned(),
                labels: buckets[k].clone(),
                description: descriptions[k].to_owned(),
                action: actions[k].to_owned(),
            };
            out.insert(0, cat);
            assert(out@.map_values(|c: LabelCategory| c@) =~= seq![category_model(k as int, labels_in(labels@, k as int))] + tail);
        }
    }
    out
}


// ---------------------------------------------------------------------------
// Cleanup and consolidation: which labels are deleted, and how many went.
// ---------------------------------------------------------------------------

/// A label that the cleanup deletes: empty, and neither a system label, nor
/// one managed by Graphon, nor a nested one.
pub open spec fn is_cleanup_target(l: LabelInfo) -> bool {
    &&& !is_system_name(l.name@)
    &&& !spec_is_graphon_label(l.name@)
    &&& !spec_is_nested_label(l.name@)
    &&& message_count(l) == 0
}

/// A label that a consolidation into `target` deletes: neither a system label
/// nor one managed by Graphon (those are protected from deletion), its
/// lower-cased name begins with the lower-cased `prefix`, and its name is not
/// exactly `target`.
pub open spec fn is_consolidation_target(l: LabelInfo, prefix: Seq<char>, target: Seq<char>) -> bool {
    &&& !is_system_name(l.name@)
    &&& !spec_is_graphon_label(l.name@)
    &&& has_prefix(unicode_lowercase(l.name@), unicode_lowercase(prefix))
    &&& l.name@ != target
}

/// The labels of `s` that the cleanup deletes, in order.
pub open spec fn cleanup_targets(s: Seq<LabelInfo>) -> Seq<LabelInfo>
    decreases s.len(),
{
    if s.len() == 0 {
        Seq::empty()
    } else if is_cleanup_target(s.last()) {
        cleanup_targets(s.drop_last()).push(s.last())
    } else {
        cleanup_targets(s.drop_last())
    }
}

/// The labels of `s` that a consolidation into `target` deletes, in order.
pub open spec fn consolidation_targets(s: Seq<LabelInfo>, prefix: Seq<char>, target: Seq<char>) -> Seq<LabelInfo>
    decreases s.len(),
{
    if s.len() == 0 {
        Seq::empty()
    } else if is_consolidation_target(s.last(), prefix, target) {
        consolidation_targets(s.drop_last(), prefix, target).push(s.last())
    } else {
        consolidation_targets(s.drop_last(), prefix, target)
    }
}

/// The number of `true` in `s`.
pub open spec fn count_true(s: Seq<bool>) -> nat
    decreases s.len(),
{
    if s.len() == 0 {
        0
    } else {
        count_true(s.drop_last()) + if s.last() { 1nat } else { 0 }
    }
}

proof fn lemma_count_true_bound(s: Seq<bool>)
    ensures
        count_true(s) <= s.len(),
    decreases s.len(),
{
    if s.len() > 0 {
        lemma_count_true_bound(s.drop_last());
    }
}

/// A run of label deletions: the labels to delete, in order, and the outcome
/// (deleted or failed) of each deletion tried so far. The caller deletes
/// [`LabelSweep::next_label`], reports the outcome with
/// [`LabelSweep::record`], and repeats until there is nothing left.
pub struct LabelSweep {
    targets: Vec<LabelInfo>,
    outcomes: Vec<bool>,
}

/// The mathematical model of a [`LabelSweep`].
pub struct SweepModel {
    pub targets: Seq<LabelInfo>,
    pub outcomes: Seq<bool>,
}

impl View for LabelSweep {
    type V = SweepModel;

    closed spec fn view(&self) -> SweepModel {
        SweepModel { targets: self.targets@, outcomes: self.outcomes@ }
    }
}

impl LabelSweep {
    #[verifier::type_invariant]
    spec fn outcomes_within_targets(self) -> bool {
        self.outcomes@.len() <= self.targets@.len()
    }

    /// A run over `targets` with no deletion tried yet.
    pub fn new(targets: Vec<LabelInfo>) -> (r: LabelSweep)
        ensures
            r@.targets == targets@,
            r@.outcomes == Seq::<bool>::empty(),
    {
        LabelSweep { targets, outcomes: Vec::new() }
    }

    /// The labels this run deletes.
    pub fn targets(&self) -> (r: &Vec<LabelInfo>)
        ensures
            r@ == self@.targets,
    {
        &self.targets
    }

    /// The next label to delete, or `None` once every target has been tried.
    pub fn next_label(&self) -> (r: Option<LabelInfo>)
        ensures
            self@.outcomes.len() <= self@.targets.len(),
            r == (if self@.outcomes.len() < self@.targets.len() {
                Some(self@.targets[self@.outcomes.len() as int])
            } else {
                None
            }),
    {
        proof {
            use_type_invariant(self);
        }
        if self.outcomes.len() < self.targets.len() {
            Some(self.targets[self.outcomes.len()].clone())
        } else {
            None
        }
    }

    /// Records whether the deletion of the label given by `next_label` worked.
    /// Once every target has been tried, the run is left unchanged.
    pub fn record(&mut self, deleted: bool)
        ensures
            final(self)@.targets == old(self)@.targets,
            final(self)@.outcomes == (if old(self)@.outcomes.len() < old(self)@.targets.len() {
                old(self)@.outcomes.push(deleted)
            } else {
                old(self)@.outcomes
            }),
    {
        proof {
            use_type_invariant(&*self);
        }
        if self.outcomes.len() < self.targets.len() {
            let mut outcomes: Vec<bool> = Vec::new();
            std::mem::swap(&mut outcomes, &mut self.outcomes);
            outcomes.push(deleted);
            self.outcomes = outcomes;
        }
    }

    /// The number of labels deleted so far.
    pub fn deleted(&self) -> (n: usize)
        ensures
            n == count_true(self@.outcomes),
            n <= self@.targets.len(),
    {
        proof {
            use_type_invariant(self);
        }
        let mut n: usize = 0;
        let mut i: usize = 0;
        while i < self.outcomes.len()
            invariant
                i <= self.outcomes@.len(),
                n == count_true(self.outcomes@.take(i as int)),
                n <= i,
            decreases self.outcomes@.len() - i,
        {
            assert(self.outcomes@.take(i + 1).drop_last() =~= self.outcomes@.take(i as int));
            if self.outcomes[i] {
                n += 1;
            }
            i += 1;
        }
        assert(self.outcomes@.take(self.outcomes@.len() as int) =~= self.outcomes@);
        n
    }
}

/// Whether the cleanup deletes this label.
pub fn cleanup_target(l: &LabelInfo) -> (r: bool)
    ensures
        r == is_cleanup_target(*l),
{
    !l.is_system() && !is_graphon_label(l.name.as_str()) && !is_nested_label(l.name.as_str()) && l.is_empty()
}

/// Whether a consolidation of the labels named after `prefix` into `target` deletes this label.
pub fn consolidation_target(l: &LabelInfo, prefix: &str, target: &str) -> (r: bool)
    ensures
        r == is_consolidation_target(*l, prefix@, target@),
        r == (!is_system_name(l.name@) && !spec_is_graphon_label(l.name@) && has_prefix(
            unicode_lowercase(l.name@),
            unicode_lowercase(prefix@),
        ) && l.name@ != target@),
{
    if l.is_system() || is_graphon_label(l.name.as_str()) {
        return false;
    }
    let name_lower = to_lowercase(l.name.as_str());
    let prefix_lower = to_lowercase(prefix);
    starts_with(name_lower.as_str(), prefix_lower.as_str()) && !str_eq(l.name.as_str(), target)
}

/// The deletion run of a cleanup: every empty label that is neither a system
/// label, nor one managed by Graphon, nor a nested one, in the given order.
pub fn cleanup_empty_labels(labels: &Vec<LabelInfo>) -> (r: LabelSweep)
    ensures
        r@.targets == cleanup_targets(labels@),
        r@.outcomes == Seq::<bool>::empty(),
{
    let mut targets: Vec<LabelInfo> = Vec::new();
    let mut i: usize = 0;
    while i < labels.len()
        invariant
            i <= labels.len(),
            targets@ == cleanup_targets(labels@.take(i as int)),
        decreases labels.len() - i,
    {
        assert(labels@.take(i + 1).drop_last() =~= labels@.take(i as int));
        assert(labels@.take(i + 1).last() == labels@[i as int]);
        if cleanup_target(&labels[i]) {
            targets.push(labels[i].clone());
        }
        i += 1;
    }
    assert(labels@.take(labels.len() as int) =~= labels@);
    LabelSweep::new(targets)
}

/// The deletion run of a consolidation into `target`: every label, other than
/// a system label, a label managed by Graphon or `target` itself, whose
/// lower-cased name begins with the lower-cased `prefix`, in the given order.
pub fn consolidate_labels(labels: &Vec<LabelInfo>, prefix: &str, target: &str) -> (r: LabelSweep)
    ensures
        r@.targets == consolidation_targets(labels@, prefix@, target@),
        r@.outcomes == Seq::<bool>::empty(),
{
    let mut targets: Vec<LabelInfo> = Vec::new();
    let mut i: usize = 0;
    while i < labels.len()
        invariant
            i <= labels.len(),
            targets@ == consolidation_targets(labels@.take(i as int), prefix@, target@),
        decreases labels.len() - i,
    {
        assert(labels@.take(i + 1).drop_last() =~= labels@.take(i as int));
        assert(labels@.take(i + 1).last() == labels@[i as int]);
        if consolidation_target(&labels[i], prefix, target) {
            targets.push(labels[i].clone());
        }
        i += 1;
    }
    assert(labels@.take(labels.len() as int) =~= labels@);
    LabelSweep::new(targets)
}

/// The cleanup deletes exactly the cleanup targets among the labels given: each
/// label it deletes is one of them, empty, and neither a system label, nor one
/// managed by Graphon, nor a nested one; and each such label is deleted.
pub proof fn lemma_cleanup_selects_exactly(s: Seq<LabelInfo>)
    ensures
        forall|i: int| 0 <= i < cleanup_targets(s).len() ==> {
            &&& s.contains(#[trigger] cleanup_targets(s)[i])
            &&& is_cleanup_target(cleanup_targets(s)[i])
            &&& !is_system_name(cleanup_targets(s)[i].name@)
            &&& !spec_is_graphon_label(cleanup_targets(s)[i].name@)
            &&& !spec_is_nested_label(cleanup_targets(s)[i].name@)
            &&& message_count(cleanup_targets(s)[i]) == 0
        },
        forall|i: int| 0 <= i < s.len() && is_cleanup_target(#[trigger] s[i]) ==> cleanup_targets(s).contains(s[i]),
        forall|i: int|
            0 <= i < s.len() && !is_system_name(#[trigger] s[i].name@) && !spec_is_graphon_label(s[i].name@)
                && !spec_is_nested_label(s[i].name@) && message_count(s[i]) == 0 ==> cleanup_targets(s).contains(s[i]),
    decreases s.len(),
{
    if s.len() > 0 {
        let p = s.drop_last();
        lemma_cleanup_selects_exactly(p);
        assert forall|i: int| 0 <= i < cleanup_targets(s).len() implies s.contains(#[trigger] cleanup_targets(s)[i])
            && is_cleanup_target(cleanup_targets(s)[i]) by {
            if i < cleanup_targets(p).len() {
                assert(cleanup_targets(s)[i] == cleanup_targets(p)[i]);
                let m = choose|m: int| 0 <= m < p.len() && p[m] == cleanup_targets(p)[i];
                assert(s[m] == p[m]);
            } else {
                assert(s[s.len() - 1] == s.last());
            }
        }
        assert forall|i: int| 0 <= i < s.len() && is_cleanup_target(#[trigger] s[i]) implies cleanup_targets(s).contains(s[i]) by {
            if i < s.len() - 1 {
                assert(p[i] == s[i]);
                let m = choose|m: int| 0 <= m < cleanup_targets(p).len() && cleanup_targets(p)[m] == p[i];
                if is_cleanup_target(s.last()) {
                    assert(cleanup_targets(s)[m] == cleanup_targets(p)[m]);
                }
            } else {
                let t = cleanup_targets(s);
                assert(t[t.len() - 1] == s[i]);
            }
        }
    }
}

/// A consolidation into `target` deletes exactly the matching labels: each
/// label it deletes is one of those given, neither a system label nor one
/// managed by Graphon, not named exactly `target`, and its lower-cased name
/// begins with the lower-cased `prefix`; and each such label is deleted.
pub proof fn lemma_consolidation_selects_exactly(s: Seq<LabelInfo>, prefix: Seq<char>, target: Seq<char>)
    ensures
        forall|i: int| 0 <= i < consolidation_targets(s, prefix, target).len() ==> {
            &&& s.contains(#[trigger] consolidation_targets(s, prefix, target)[i])
            &&& is_consolidation_target(consolidation_targets(s, prefix, target)[i], prefix, target)
            &&& !is_system_name(consolidation_targets(s, prefix, target)[i].name@)
            &&& !spec_is_graphon_label(consolidation_targets(s, prefix, target)[i].name@)
            &&& consolidation_targets(s, prefix, target)[i].name@ != target
            &&& has_prefix(unicode_lowercase(consolidation_targets(s, prefix, target)[i].name@), unicode_lowercase(prefix))
        },
        forall|i: int| 0 <= i < s.len() && is_consolidation_target(#[trigger] s[i], prefix, target)
            ==> consolidation_targets(s, prefix, target).contains(s[i]),
        forall|i: int|
            0 <= i < s.len() && !is_system_name(#[trigger] s[i].name@) && !spec_is_graphon_label(s[i].name@)
                && has_prefix(unicode_lowercase(s[i].name@), unicode_lowercase(prefix)) && s[i].name@ != target
                ==> consolidation_targets(s, prefix, target).contains(s[i]),
    decreases s.len(),
{
    if s.len() > 0 {
        let p = s.drop_last();
        lemma_consolidation_selects_exactly(p, prefix, target);
        let tp = consolidation_targets(p, prefix, target);
        let ts = consolidation_targets(s, prefix, target);
        assert forall|i: int| 0 <= i < ts.len() implies s.contains(#[trigger] ts[i])
            && is_consolidation_target(ts[i], prefix, target) by {
            if i < tp.len() {
                assert(ts[i] == tp[i]);
                let m = choose|m: int| 0 <= m < p.len() && p[m] == tp[i];
                assert(s[m] == p[m]);
            } else {
                assert(s[s.len() - 1] == s.last());
            }
        }
        assert forall|i: int| 0 <= i < s.len() && is_consolidation_target(#[trigger] s[i], prefix, target)
            implies ts.contains(s[i]) by {
            if i < s.len() - 1 {
                assert(p[i] == s[i]);
                let m = choose|m: int| 0 <= m < tp.len() && tp[m] == p[i];
                if is_consolidation_target(s.last(), prefix, target) {
                    assert(ts[m] == tp[m]);
                }
            } else {
                assert(ts[ts.len() - 1] == s[i]);
            }
        }
    }
}

/// The error reported when no label is called `name`.
pub open spec fn label_not_found(name: Seq<char>) -> Seq<char> {
    "Label '"@ + name + "' not found"@
}

/// The label that a deletion by name removes: the first whose name equals
/// `name` up to ASCII case; `NotFound` when there is none.
pub fn delete_label_by_name(labels: &Vec<LabelInfo>, name: &str) -> (r: Result<LabelInfo, GraphonError>)
    ensures
        match r {
            Ok(l) => exists|i: int|
                0 <= i < labels@.len() && labels@[i] == l && eq_ascii_ci(l.name@, name@)
                    && forall|j: int| 0 <= j < i ==> !eq_ascii_ci(#[trigger] labels@[j].name@, name@),
            Err(e) => {
                &&& forall|j: int| 0 <= j < labels@.len() ==> !eq_ascii_ci(#[trigger] labels@[j].name@, name@)
                &&& e matches GraphonError::NotFound(m) && m@ == label_not_found(name@)
            },
        },
{
    let mut i: usize = 0;
    while i < labels.len()
        invariant
            i <= labels.len(),
            forall|j: int| 0 <= j < i ==> !eq_ascii_ci(#[trigger] labels@[j].name@, name@),
        decreases labels.len() - i,
    {
        if eq_ignore_ascii_case(labels[i].name.as_str(), name) {
            return Ok(labels[i].clone());
        }
        i += 1;
    }
    let mut m = String::from_str("Label '");
    m.append(name);
    m.append("' not found");
    proof {
        reveal_strlit("Label '");
        reveal_strlit("' not found");
    }
    Err(GraphonError::NotFound(m))
}

} // verus!

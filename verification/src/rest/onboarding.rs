//! Server onboarding: the questions a new member answers before they can
//! talk, read and answered.
use vstd::prelude::*;

use crate::ids::marker::{ChannelMarker, RoleMarker};
use crate::ids::Id;
use crate::json::{entries, fields_model, items_model, obj_get, put, push_item, Json, JsonValue};
use crate::text::{concat3, decimal, decimal_string, join, join_seq, owned, views};

verus! {

broadcast use vstd::seq_lib::group_filter_ensures;

#[derive(Clone, Debug, PartialEq, Eq)]
pub struct OnboardingOption {
    pub id: u64,
    pub title: String,
    pub description: Option<String>,
    pub role_ids: Vec<Id<RoleMarker>>,
    pub channel_ids: Vec<Id<ChannelMarker>>,
}

pub open spec fn count_phrase(n: nat, one: Seq<char>, prefix: Seq<char>, plural: Seq<char>) -> Seq<char> {
    if n == 1 { one } else { prefix + decimal(n) + plural }
}

/// The description when there is one, then the roles and channels the
/// option grants; "no roles or channels" when it grants nothing and has no
/// description.
pub open spec fn option_summary(o: OnboardingOption) -> Seq<char> {
    let a: Seq<Seq<char>> = match o.description {
        Some(d) => if d@.len() > 0 { seq![d@] } else { Seq::empty() },
        None => Seq::empty(),
    };
    let b = if o.role_ids@.len() > 0 {
        a.push(count_phrase(o.role_ids@.len(), "gives you 1 role"@, "gives you "@, " roles"@))
    } else {
        a
    };
    let c = if o.channel_ids@.len() > 0 {
        b.push(count_phrase(o.channel_ids@.len(), "shows 1 channel"@, "shows "@, " channels"@))
    } else {
        b
    };
    join_seq(if c.len() == 0 { seq!["no roles or channels"@] } else { c }, " - "@)
}

fn count_text(n: usize, one: &str, prefix: &str, plural: &str) -> (s: String)
    ensures
        s@ == count_phrase(n as nat, one@, prefix@, plural@),
{
    if n == 1 {
        owned(one)
    } else {
        concat3(prefix, decimal_string(n as u64).as_str(), plural)
    }
}

impl OnboardingOption {
    /// What picking the option does.
    pub fn summary(&self) -> (s: String)
        ensures
            s@ == option_summary(*self),
    {
        let mut parts: Vec<String> = Vec::new();
        if let Some(description) = &self.description {
            if description.unicode_len() > 0 {
                parts.push(owned(description.as_str()));
            }
        }
        let ghost a = views(parts@);
        if self.role_ids.len() > 0 {
            parts.push(count_text(self.role_ids.len(), "gives you 1 role", "gives you ", " roles"));
        }
        let ghost b = views(parts@);
        if self.channel_ids.len() > 0 {
            parts.push(count_text(self.channel_ids.len(), "shows 1 channel", "shows ", " channels"));
        }
        let ghost c = views(parts@);
        proof {
            assert(a =~= match self.description {
                Some(d) => if d@.len() > 0 { seq![d@] } else { Seq::<Seq<char>>::empty() },
                None => Seq::<Seq<char>>::empty(),
            });
            assert(b =~= if self.role_ids@.len() > 0 {
                a.push(count_phrase(self.role_ids@.len(), "gives you 1 role"@, "gives you "@, " roles"@))
            } else {
                a
            });
            assert(c =~= if self.channel_ids@.len() > 0 {
                b.push(count_phrase(self.channel_ids@.len(), "shows 1 channel"@, "shows "@, " channels"@))
            } else {
                b
            });
        }
        if parts.len() == 0 {
            parts.push(owned("no roles or channels"));
            assert(views(parts@) =~= seq!["no roles or channels"@]);
        }
        join(&parts, " - ")
    }
}

#[derive(Clone, Debug, PartialEq, Eq)]
pub struct OnboardingQuestion {
    pub id: u64,
    pub title: String,
    pub single_select: bool,
    pub required: bool,
    pub options: Vec<OnboardingOption>,
}

pub open spec fn has_option(q: OnboardingQuestion, id: u64) -> bool {
    exists|i: int| 0 <= i < q.options@.len() && (#[trigger] q.options@[i]).id == id
}

/// A question is answered when it is optional or one of its own options is
/// picked.
pub open spec fn is_answered(q: OnboardingQuestion, picked: Seq<u64>) -> bool {
    !q.required || exists|i: int| 0 <= i < q.options@.len() && picked.contains((#[trigger] q.options@[i]).id)
}

fn contains_id(picked: &[u64], id: u64) -> (b: bool)
    ensures
        b == picked@.contains(id),
{
    let n = picked.len();
    let mut i: usize = 0;
    while i < n
        invariant
            n == picked@.len(),
            i <= n,
            forall|k: int| 0 <= k < i ==> picked@[k] != id,
        decreases n - i,
    {
        if picked[i] == id {
            assert(picked@[i as int] == id);
            return true;
        }
        i = i + 1;
    }
    false
}

fn copy_ids(ids: &[u64]) -> (v: Vec<u64>)
    ensures
        v@ == ids@,
{
    let mut v: Vec<u64> = Vec::new();
    let n = ids.len();
    let mut i: usize = 0;
    while i < n
        invariant
            n == ids@.len(),
            i <= n,
            v@ == ids@.take(i as int),
        decreases n - i,
    {
        v.push(ids[i]);
        assert(v@ =~= ids@.take(i + 1));
        i = i + 1;
    }
    assert(ids@.take(n as int) =~= ids@);
    v
}

/// A question's summary: "pick one" or "pick any", and "required" when it
/// is.
pub open spec fn question_summary(q: OnboardingQuestion) -> Seq<char> {
    join_seq(
        {
            let a: Seq<Seq<char>> = seq![if q.single_select { "pick one"@ } else { "pick any"@ }];
            if q.required { a.push("required"@) } else { a }
        },
        " - "@,
    )
}

impl OnboardingQuestion {
    /// "pick one" or "pick any", and "required" when it is.
    pub fn summary(&self) -> (s: String)
        ensures
            s@ == question_summary(*self),
    {
        let mut parts: Vec<String> = Vec::new();
        parts.push(if self.single_select { owned("pick one") } else { owned("pick any") });
        if self.required {
            parts.push(owned("required"));
        }
        assert(views(parts@) =~= {
            let a: Seq<Seq<char>> = seq![if self.single_select { "pick one"@ } else { "pick any"@ }];
            if self.required { a.push("required"@) } else { a }
        });
        join(&parts, " - ")
    }

    pub fn is_answered_by(&self, picked: &[u64]) -> (b: bool)
        ensures
            b == is_answered(*self, picked@),
    {
        if !self.required {
            return true;
        }
        let n = self.options.len();
        let mut i: usize = 0;
        while i < n
            invariant
                n == self.options@.len(),
                i <= n,
                forall|k: int| 0 <= k < i ==> !picked@.contains((#[trigger] self.options@[k]).id),
            decreases n - i,
        {
            if contains_id(picked, self.options[i].id) {
                return true;
            }
            i = i + 1;
        }
        false
    }

    fn offers(&self, id: u64) -> (b: bool)
        ensures
            b == has_option(*self, id),
    {
        let n = self.options.len();
        let mut i: usize = 0;
        while i < n
            invariant
                n == self.options@.len(),
                i <= n,
                forall|k: int| 0 <= k < i ==> (#[trigger] self.options@[k]).id != id,
            decreases n - i,
        {
            if self.options[i].id == id {
                return true;
            }
            i = i + 1;
        }
        false
    }
}

#[derive(Clone, Debug, PartialEq, Eq)]
pub struct Onboarding {
    pub enabled: bool,
    pub questions: Vec<OnboardingQuestion>,
}

impl Default for Onboarding {
    fn default() -> (o: Self)
        ensures
            !o.enabled,
            o.questions@.len() == 0,
    {
        Onboarding { enabled: false, questions: Vec::new() }
    }
}

/// The titles of the questions still needing an answer, in order.
pub open spec fn unanswered_titles(qs: Seq<OnboardingQuestion>, picked: Seq<u64>) -> Seq<Seq<char>>
    decreases qs.len(),
{
    if qs.len() == 0 {
        Seq::empty()
    } else {
        let rest = unanswered_titles(qs.drop_last(), picked);
        if is_answered(qs.last(), picked) { rest } else { rest.push(qs.last().title@) }
    }
}

/// The first question at or after `i` that offers option `id`.
pub open spec fn question_offering(qs: Seq<OnboardingQuestion>, id: u64, i: int) -> Option<int>
    decreases qs.len() - i,
{
    if i < 0 || i >= qs.len() {
        None
    } else if has_option(qs[i], id) {
        Some(i)
    } else {
        question_offering(qs, id, i + 1)
    }
}

/// Keeps every answer but `id`.
pub open spec fn other_than(id: u64) -> spec_fn(u64) -> bool {
    |x: u64| x != id
}

/// Keeps the answers not offered by `q`.
pub open spec fn not_offered_by(q: OnboardingQuestion) -> spec_fn(u64) -> bool {
    |x: u64| !has_option(q, x)
}

/// The answers after toggling option `id`: an option no question offers
/// changes nothing; a picked option is unpicked; otherwise it is picked,
/// and on a single-select question the question's other answers, and only
/// those, are dropped first.
pub open spec fn toggled_answers(qs: Seq<OnboardingQuestion>, picked: Seq<u64>, id: u64) -> Seq<u64> {
    match question_offering(qs, id, 0) {
        None => picked,
        Some(qi) => if picked.contains(id) {
            picked.filter(other_than(id))
        } else if qs[qi].single_select {
            picked.filter(not_offered_by(qs[qi])).push(id)
        } else {
            picked.push(id)
        },
    }
}

pub proof fn lemma_question_offering(qs: Seq<OnboardingQuestion>, id: u64, i: int)
    requires
        0 <= i,
    ensures
        question_offering(qs, id, i) matches Some(k) ==> i <= k < qs.len() && has_option(qs[k], id),
    decreases qs.len() - i,
{
    if i < qs.len() && !has_option(qs[i], id) {
        lemma_question_offering(qs, id, i + 1);
    }
}

proof fn lemma_map_push<A, B>(s: Seq<A>, x: A, f: spec_fn(A) -> B)
    ensures
        s.push(x).map_values(f) == s.map_values(f).push(f(x)),
{
    assert(s.push(x).map_values(f) =~= s.map_values(f).push(f(x)));
}

/// One row of the onboarding panel: a question, or one of its options.
#[derive(Clone, Debug, PartialEq, Eq)]
pub enum OnboardingRow {
    Question { title: String, summary: String, unanswered: bool },
    Option { id: u64, title: String, summary: String, picked: bool },
}

impl OnboardingRow {
    /// The option a row picks; a question row picks nothing.
    pub fn option_id(&self) -> (id: Option<u64>)
        ensures
            id == match self {
                OnboardingRow::Option { id, .. } => Some(*id),
                OnboardingRow::Question { .. } => None,
            },
    {
        match self {
            OnboardingRow::Option { id, .. } => Some(*id),
            OnboardingRow::Question { .. } => None,
        }
    }
}

/// The rows of one question: the question, then each option in order.
pub open spec fn question_rows(q: OnboardingQuestion, picked: Seq<u64>) -> Seq<(Option<u64>, Seq<char>, Seq<char>, bool)> {
    seq![(None::<u64>, q.title@, question_summary(q), !is_answered(q, picked))] + q.options@.map_values(
        |o: OnboardingOption| (Some(o.id), o.title@, option_summary(o), picked.contains(o.id)),
    )
}

/// Every row: each question followed by its options.
pub open spec fn all_rows(qs: Seq<OnboardingQuestion>, picked: Seq<u64>) -> Seq<(Option<u64>, Seq<char>, Seq<char>, bool)>
    decreases qs.len(),
{
    if qs.len() == 0 {
        Seq::empty()
    } else {
        all_rows(qs.drop_last(), picked) + question_rows(qs.last(), picked)
    }
}

/// How many options the questions hold together.
pub open spec fn option_count(qs: Seq<OnboardingQuestion>) -> nat
    decreases qs.len(),
{
    if qs.len() == 0 { 0 } else { option_count(qs.drop_last()) + qs.last().options@.len() }
}

/// The panel has one row per question and one per option.
pub proof fn law_rows_one_per_question_and_option(qs: Seq<OnboardingQuestion>, picked: Seq<u64>)
    ensures
        all_rows(qs, picked).len() == qs.len() + option_count(qs),
    decreases qs.len(),
{
    if qs.len() > 0 {
        law_rows_one_per_question_and_option(qs.drop_last(), picked);
    }
}

/// A question's row comes first among its rows and is the only one that
/// picks nothing; each option's row names the option.
pub proof fn law_a_question_row_is_not_an_option_row(q: OnboardingQuestion, picked: Seq<u64>)
    ensures
        question_rows(q, picked)[0].0 is None,
        forall|k: int| 0 <= k < q.options@.len() ==> #[trigger] question_rows(q, picked)[k + 1].0 == Some(q.options@[k].id),
{
}

/// What a row says: the option it picks, its title, its summary, and
/// whether it is an unanswered question or a picked option.
pub open spec fn row_view(r: OnboardingRow) -> (Option<u64>, Seq<char>, Seq<char>, bool) {
    match r {
        OnboardingRow::Question { title, summary, unanswered } => (None, title@, summary@, unanswered),
        OnboardingRow::Option { id, title, summary, picked } => (Some(id), title@, summary@, picked),
    }
}

impl Onboarding {
    /// The titles of the questions still needing an answer, so the panel can
    /// name them rather than count them.
    pub fn unanswered(&self, picked: &[u64]) -> (titles: Vec<&str>)
        ensures
            crate::text::str_views(titles@) == unanswered_titles(self.questions@, picked@),
    {
        let mut titles: Vec<&str> = Vec::new();
        let n = self.questions.len();
        let mut i: usize = 0;
        while i < n
            invariant
                n == self.questions@.len(),
                i <= n,
                crate::text::str_views(titles@) == unanswered_titles(self.questions@.take(i as int), picked@),
            decreases n - i,
        {
            proof {
                assert(self.questions@.take(i + 1).drop_last() =~= self.questions@.take(i as int));
            }
            if !self.questions[i].is_answered_by(picked) {
                titles.push(self.questions[i].title.as_str());
            }
            assert(crate::text::str_views(titles@) =~= unanswered_titles(self.questions@.take(i + 1), picked@));
            i = i + 1;
        }
        assert(self.questions@.take(n as int) =~= self.questions@);
        titles
    }

    /// The panel's rows: each question, then its options.
    pub fn rows(&self, picked: &[u64]) -> (rows: Vec<OnboardingRow>)
        ensures
            rows@.map_values(|r: OnboardingRow| row_view(r)) == all_rows(self.questions@, picked@),
    {
        let mut rows: Vec<OnboardingRow> = Vec::new();
        let n = self.questions.len();
        let mut i: usize = 0;
        while i < n
            invariant
                n == self.questions@.len(),
                i <= n,
                rows@.map_values(|r: OnboardingRow| row_view(r)) == all_rows(self.questions@.take(i as int), picked@),
            decreases n - i,
        {
            let question = &self.questions[i];
            let ghost before = rows@.map_values(|r: OnboardingRow| row_view(r));
            let ghost rows_before = rows@;
            rows.push(
                OnboardingRow::Question {
                    title: owned(question.title.as_str()),
                    summary: question.summary(),
                    unanswered: !question.is_answered_by(picked),
                },
            );
            proof {
                lemma_map_push(rows_before, rows@.last(), |r: OnboardingRow| row_view(r));
                assert(rows@ == rows_before.push(rows@.last()));
                assert(question_rows(*question, picked@).take(1) =~= seq![row_view(rows@.last())]);
            }
            let m = question.options.len();
            let mut j: usize = 0;
            while j < m
                invariant
                    m == question.options@.len(),
                    j <= m,
                    rows@.map_values(|r: OnboardingRow| row_view(r)) == before + question_rows(*question, picked@).take(j + 1),
                decreases m - j,
            {
                let option = &question.options[j];
                let ghost rows_before = rows@;
                rows.push(
                    OnboardingRow::Option {
                        id: option.id,
                        title: owned(option.title.as_str()),
                        summary: option.summary(),
                        picked: contains_id(picked, option.id),
                    },
                );
                proof {
                    lemma_map_push(rows_before, rows@.last(), |r: OnboardingRow| row_view(r));
                    assert(rows@ == rows_before.push(rows@.last()));
                    assert(question_rows(*question, picked@)[j + 1] == row_view(rows@.last()));
                    assert(question_rows(*question, picked@).take(j + 2) =~= question_rows(*question, picked@).take(j + 1).push(row_view(rows@.last())));
                }
                assert(rows@.map_values(|r: OnboardingRow| row_view(r)) =~= before + question_rows(*question, picked@).take(j + 2));
                j = j + 1;
            }
            proof {
                assert(question_rows(*question, picked@).take(m + 1) =~= question_rows(*question, picked@));
                assert(self.questions@.take(i + 1).drop_last() =~= self.questions@.take(i as int));
            }
            i = i + 1;
        }
        assert(self.questions@.take(n as int) =~= self.questions@);
        rows
    }

    /// The answers after toggling option `option_id`.
    pub fn toggled(&self, picked: &[u64], option_id: u64) -> (next: Vec<u64>)
        ensures
            next@ == toggled_answers(self.questions@, picked@, option_id),
    {
        let n = self.questions.len();
        let mut qi: usize = 0;
        while qi < n && !self.questions[qi].offers(option_id)
            invariant
                n == self.questions@.len(),
                qi <= n,
                question_offering(self.questions@, option_id, 0) == question_offering(self.questions@, option_id, qi as int),
            decreases n - qi,
        {
            qi = qi + 1;
        }
        proof {
            lemma_question_offering(self.questions@, option_id, qi as int);
        }
        if qi == n {
            return copy_ids(picked);
        }
        let question = &self.questions[qi];
        assert(question_offering(self.questions@, option_id, qi as int) == Some(qi as int));
        let unpick = contains_id(picked, option_id);
        let single = question.single_select;
        let mut next: Vec<u64> = Vec::new();
        let m = picked.len();
        let mut i: usize = 0;
        while i < m
            invariant
                m == picked@.len(),
                i <= m,
                next@ == if unpick {
                    picked@.take(i as int).filter(other_than(option_id))
                } else if single {
                    picked@.take(i as int).filter(not_offered_by(*question))
                } else {
                    picked@.take(i as int)
                },
            decreases m - i,
        {
            let x = picked[i];
            let keep = if unpick {
                x != option_id
            } else if single {
                !question.offers(x)
            } else {
                true
            };
            if keep {
                next.push(x);
            }
            proof {
                reveal(Seq::filter);
                assert(picked@.take(i + 1).drop_last() =~= picked@.take(i as int));
                assert(picked@.take(i + 1).last() == x);
                assert(next@ =~= if unpick {
                    picked@.take(i + 1).filter(other_than(option_id))
                } else if single {
                    picked@.take(i + 1).filter(not_offered_by(*question))
                } else {
                    picked@.take(i + 1)
                });
            }
            i = i + 1;
        }
        assert(picked@.take(m as int) =~= picked@);
        if !unpick {
            next.push(option_id);
        }
        next
    }
}

/// Law: toggling an option some question offers flips whether it is picked,
/// and leaves every answer to another question as it was.
pub proof fn law_toggle_flips_only_its_question(qs: Seq<OnboardingQuestion>, picked: Seq<u64>, id: u64, other: u64)
    requires
        question_offering(qs, id, 0) is Some,
        other != id,
        !has_option(qs[question_offering(qs, id, 0).unwrap()], other),
    ensures
        toggled_answers(qs, picked, id).contains(id) == !picked.contains(id),
        toggled_answers(qs, picked, id).contains(other) == picked.contains(other),
{
    lemma_question_offering(qs, id, 0);
    let qi = question_offering(qs, id, 0).unwrap();
    let q = qs[qi];
    if picked.contains(id) {
        let pred = other_than(id);
        let f = picked.filter(pred);
        assert(!f.contains(id)) by {
            if f.contains(id) {
                let k = choose|k: int| 0 <= k < f.len() && f[k] == id;
                assert(pred(f[k]));
            }
        }
        if picked.contains(other) {
            let k = choose|k: int| 0 <= k < picked.len() && picked[k] == other;
            assert(pred(picked[k]));
            assert(f.contains(picked[k]));
        }
        if f.contains(other) {
            let k = choose|k: int| 0 <= k < f.len() && f[k] == other;
            lemma_filter_subset(picked, pred, k);
        }
    } else if q.single_select {
        let pred = not_offered_by(q);
        let f = picked.filter(pred);
        assert(f.push(id).contains(id)) by {
            assert(f.push(id)[f.len() as int] == id);
        }
        if picked.contains(other) {
            let k = choose|k: int| 0 <= k < picked.len() && picked[k] == other;
            assert(pred(picked[k]));
            assert(f.contains(picked[k]));
            let j = choose|j: int| 0 <= j < f.len() && f[j] == other;
            assert(f.push(id)[j] == other);
        }
        if f.push(id).contains(other) {
            let k = choose|k: int| 0 <= k < f.push(id).len() && f.push(id)[k] == other;
            assert(k < f.len());
            assert(f[k] == other);
            lemma_filter_subset(picked, pred, k);
        }
    } else {
        assert(picked.push(id)[picked.len() as int] == id);
        if picked.contains(other) {
            let k = choose|k: int| 0 <= k < picked.len() && picked[k] == other;
            assert(picked.push(id)[k] == other);
        }
        if picked.push(id).contains(other) {
            let k = choose|k: int| 0 <= k < picked.push(id).len() && picked.push(id)[k] == other;
            assert(picked[k] == other);
        }
    }
}

/// What a filter keeps was in what it filtered.
proof fn lemma_filter_subset(s: Seq<u64>, pred: spec_fn(u64) -> bool, k: int)
    requires
        0 <= k < s.filter(pred).len(),
    ensures
        s.contains(s.filter(pred)[k]),
    decreases s.len(),
{
    reveal(Seq::filter);
    if s.len() > 0 {
        let sub = s.drop_last().filter(pred);
        if k < sub.len() {
            lemma_filter_subset(s.drop_last(), pred, k);
            let j = choose|j: int| 0 <= j < s.drop_last().len() && s.drop_last()[j] == sub[k];
            assert(s[j] == sub[k]);
            if pred(s.last()) {
                assert(s.filter(pred)[k] == sub[k]);
            }
        } else {
            assert(s[s.len() - 1] == s.filter(pred)[k]);
        }
    }
}

/// Law: on a single-select question, picking an option leaves it the only
/// answer to that question.
pub proof fn law_single_select_keeps_one_answer(qs: Seq<OnboardingQuestion>, picked: Seq<u64>, id: u64, other: u64)
    requires
        question_offering(qs, id, 0) is Some,
        qs[question_offering(qs, id, 0).unwrap()].single_select,
        !picked.contains(id),
        other != id,
        has_option(qs[question_offering(qs, id, 0).unwrap()], other),
    ensures
        toggled_answers(qs, picked, id).contains(id),
        !toggled_answers(qs, picked, id).contains(other),
{
    lemma_question_offering(qs, id, 0);
    let q = qs[question_offering(qs, id, 0).unwrap()];
    let pred = not_offered_by(q);
    let f = picked.filter(pred);
    assert(f.push(id)[f.len() as int] == id);
    if f.push(id).contains(other) {
        let k = choose|k: int| 0 <= k < f.push(id).len() && f.push(id)[k] == other;
        assert(k < f.len());
        assert(pred(f[k]));
    }
}

/// Law: an option no question offers changes nothing.
pub proof fn law_unknown_option_changes_nothing(qs: Seq<OnboardingQuestion>, picked: Seq<u64>, id: u64)
    requires
        question_offering(qs, id, 0) is None,
    ensures
        toggled_answers(qs, picked, id) == picked,
{
}


/// An option as Discord sends it.
pub struct OptionBody {
    pub id: Option<String>,
    pub title: Option<String>,
    pub description: Option<String>,
    pub role_ids: Vec<String>,
    pub channel_ids: Vec<String>,
}

/// A question as Discord sends it.
pub struct PromptBody {
    pub id: Option<String>,
    pub title: Option<String>,
    pub single_select: bool,
    pub required: bool,
    pub options: Vec<OptionBody>,
}

/// The ids among the texts that parse, in order.
pub open spec fn parsed_ids(raw: Seq<String>) -> Seq<u64>
    decreases raw.len(),
{
    if raw.len() == 0 {
        Seq::empty()
    } else {
        let rest = parsed_ids(raw.drop_last());
        match crate::text::parse_u64_seq(raw.last()@) {
            Some(v) => rest.push(v),
            None => rest,
        }
    }
}

/// No text among them is the id zero, which no snowflake is.
pub open spec fn no_zero_id(raw: Seq<String>) -> bool {
    forall|i: int| 0 <= i < raw.len() ==> crate::text::parse_u64_seq((#[trigger] raw[i])@) != Some(0u64)
}

pub open spec fn id_values<T>(ids: Seq<Id<T>>) -> Seq<u64> {
    ids.map_values(|i: Id<T>| i@)
}

fn parse_ids<T>(raw: &Vec<String>) -> (ids: Vec<Id<T>>)
    requires
        no_zero_id(raw@),
    ensures
        id_values(ids@) == parsed_ids(raw@),
{
    let mut ids: Vec<Id<T>> = Vec::new();
    let n = raw.len();
    let mut i: usize = 0;
    proof {
        assert(raw@.take(0) =~= Seq::<String>::empty());
        assert(id_values(ids@) =~= Seq::<u64>::empty());
    }
    while i < n
        invariant
            n == raw@.len(),
            i <= n,
            no_zero_id(raw@),
            id_values(ids@) == parsed_ids(raw@.take(i as int)),
        decreases n - i,
    {
        proof {
            assert(raw@.take(i + 1).drop_last() =~= raw@.take(i as int));
            assert(raw@.take(i + 1).last() == raw@[i as int]);
        }
        match crate::text::parse_u64(raw[i].as_str()) {
            Some(v) => {
                let ghost before = ids@;
                ids.push(Id::new(v));
                proof {
                    assert(id_values(ids@) =~= id_values(before).push(v));
                }
            },
            None => {},
        }
        i = i + 1;
    }
    proof {
        assert(raw@.take(n as int) =~= raw@);
    }
    ids
}

pub open spec fn option_body_ok(o: OptionBody) -> bool {
    no_zero_id(o.role_ids@) && no_zero_id(o.channel_ids@)
}

pub open spec fn text_or_empty(o: Option<String>) -> Seq<char> {
    match o {
        Some(t) => t@,
        None => Seq::empty(),
    }
}

pub open spec fn nonempty_text(o: Option<String>) -> Option<Seq<char>> {
    match o {
        Some(t) => if t@.len() > 0 { Some(t@) } else { None },
        None => None,
    }
}

pub open spec fn option_view(o: OnboardingOption) -> (u64, Seq<char>, Option<Seq<char>>, Seq<u64>, Seq<u64>) {
    (
        o.id,
        o.title@,
        match o.description {
            Some(d) => Some(d@),
            None => None,
        },
        id_values(o.role_ids@),
        id_values(o.channel_ids@),
    )
}

/// The option a body describes; without a readable id there is nothing to
/// pick, so none.
pub open spec fn option_of(b: OptionBody) -> Option<(u64, Seq<char>, Option<Seq<char>>, Seq<u64>, Seq<u64>)> {
    match b.id {
        Some(t) => match crate::text::parse_u64_seq(t@) {
            Some(id) => Some((id, text_or_empty(b.title), nonempty_text(b.description), parsed_ids(b.role_ids@), parsed_ids(b.channel_ids@))),
            None => None,
        },
        None => None,
    }
}

pub open spec fn options_of(bs: Seq<OptionBody>) -> Seq<(u64, Seq<char>, Option<Seq<char>>, Seq<u64>, Seq<u64>)>
    decreases bs.len(),
{
    if bs.len() == 0 {
        Seq::empty()
    } else {
        let rest = options_of(bs.drop_last());
        match option_of(bs.last()) {
            Some(v) => rest.push(v),
            None => rest,
        }
    }
}

fn text_copy(o: &Option<String>) -> (r: String)
    ensures
        r@ == text_or_empty(*o),
{
    match o {
        Some(t) => owned(t.as_str()),
        None => String::new(),
    }
}

fn option_from_body(b: &OptionBody) -> (r: Option<OnboardingOption>)
    requires
        option_body_ok(*b),
    ensures
        match r {
            Some(o) => option_of(*b) == Some(option_view(o)),
            None => option_of(*b) is None,
        },
{
    let id = match &b.id {
        Some(t) => match crate::text::parse_u64(t.as_str()) {
            Some(v) => v,
            None => return None,
        },
        None => return None,
    };
    let description = match &b.description {
        Some(d) => if d.unicode_len() > 0 { Some(owned(d.as_str())) } else { None },
        None => None,
    };
    Some(OnboardingOption {
        id,
        title: text_copy(&b.title),
        description,
        role_ids: parse_ids(&b.role_ids),
        channel_ids: parse_ids(&b.channel_ids),
    })
}

pub open spec fn question_view(q: OnboardingQuestion) -> (u64, Seq<char>, bool, bool, Seq<(u64, Seq<char>, Option<Seq<char>>, Seq<u64>, Seq<u64>)>) {
    (q.id, q.title@, q.single_select, q.required, q.options@.map_values(|o: OnboardingOption| option_view(o)))
}

/// The question a body describes, with the options that have ids; without
/// a readable id of its own there is nothing to answer against, so none.
pub open spec fn question_of(p: PromptBody) -> Option<(u64, Seq<char>, bool, bool, Seq<(u64, Seq<char>, Option<Seq<char>>, Seq<u64>, Seq<u64>)>)> {
    match p.id {
        Some(t) => match crate::text::parse_u64_seq(t@) {
            Some(id) => Some((id, text_or_empty(p.title), p.single_select, p.required, options_of(p.options@))),
            None => None,
        },
        None => None,
    }
}

pub open spec fn prompt_ok(p: PromptBody) -> bool {
    forall|i: int| 0 <= i < p.options@.len() ==> option_body_ok(#[trigger] p.options@[i])
}

fn question_from_body(p: &PromptBody) -> (r: Option<OnboardingQuestion>)
    requires
        prompt_ok(*p),
    ensures
        match r {
            Some(q) => question_of(*p) == Some(question_view(q)),
            None => question_of(*p) is None,
        },
{
    let id = match &p.id {
        Some(t) => match crate::text::parse_u64(t.as_str()) {
            Some(v) => v,
            None => return None,
        },
        None => return None,
    };
    let mut options: Vec<OnboardingOption> = Vec::new();
    let n = p.options.len();
    let mut i: usize = 0;
    proof {
        assert(p.options@.take(0) =~= Seq::<OptionBody>::empty());
        assert(options@.map_values(|o: OnboardingOption| option_view(o)) =~= Seq::empty());
    }
    while i < n
        invariant
            n == p.options@.len(),
            i <= n,
            prompt_ok(*p),
            options@.map_values(|o: OnboardingOption| option_view(o)) == options_of(p.options@.take(i as int)),
        decreases n - i,
    {
        proof {
            assert(p.options@.take(i + 1).drop_last() =~= p.options@.take(i as int));
            assert(p.options@.take(i + 1).last() == p.options@[i as int]);
            assert(option_body_ok(p.options@[i as int]));
        }
        match option_from_body(&p.options[i]) {
            Some(o) => {
                let ghost before = options@;
                options.push(o);
                proof {
                    assert(options@.map_values(|o: OnboardingOption| option_view(o)) =~= before.map_values(|o: OnboardingOption| option_view(o)).push(option_view(o)));
                }
            },
            None => {},
        }
        i = i + 1;
    }
    proof {
        assert(p.options@.take(n as int) =~= p.options@);
    }
    Some(OnboardingQuestion { id, title: text_copy(&p.title), single_select: p.single_select, required: p.required, options })
}

pub open spec fn questions_of(ps: Seq<PromptBody>) -> Seq<(u64, Seq<char>, bool, bool, Seq<(u64, Seq<char>, Option<Seq<char>>, Seq<u64>, Seq<u64>)>)>
    decreases ps.len(),
{
    if ps.len() == 0 {
        Seq::empty()
    } else {
        let rest = questions_of(ps.drop_last());
        match question_of(ps.last()) {
            Some(v) => rest.push(v),
            None => rest,
        }
    }
}

/// The onboarding a server answered with: the questions that have ids,
/// each with its options that have ids, in order.
pub fn onboarding_from_body(enabled: bool, prompts: &Vec<PromptBody>) -> (o: Onboarding)
    requires
        forall|i: int| 0 <= i < prompts@.len() ==> prompt_ok(#[trigger] prompts@[i]),
    ensures
        o.enabled == enabled,
        o.questions@.map_values(|q: OnboardingQuestion| question_view(q)) == questions_of(prompts@),
{
    let mut questions: Vec<OnboardingQuestion> = Vec::new();
    let n = prompts.len();
    let mut i: usize = 0;
    proof {
        assert(prompts@.take(0) =~= Seq::<PromptBody>::empty());
        assert(questions@.map_values(|q: OnboardingQuestion| question_view(q)) =~= Seq::empty());
    }
    while i < n
        invariant
            n == prompts@.len(),
            i <= n,
            forall|j: int| 0 <= j < prompts@.len() ==> prompt_ok(#[trigger] prompts@[j]),
            questions@.map_values(|q: OnboardingQuestion| question_view(q)) == questions_of(prompts@.take(i as int)),
        decreases n - i,
    {
        proof {
            assert(prompts@.take(i + 1).drop_last() =~= prompts@.take(i as int));
            assert(prompts@.take(i + 1).last() == prompts@[i as int]);
        }
        match question_from_body(&prompts[i]) {
            Some(q) => {
                let ghost before = questions@;
                questions.push(q);
                proof {
                    assert(questions@.map_values(|q: OnboardingQuestion| question_view(q)) =~= before.map_values(|q: OnboardingQuestion| question_view(q)).push(question_view(q)));
                }
            },
            None => {},
        }
        i = i + 1;
    }
    proof {
        assert(prompts@.take(n as int) =~= prompts@);
    }
    Onboarding { enabled, questions }
}


pub open spec fn seen_pairs(ids: Seq<u64>) -> Seq<(Seq<char>, Json)> {
    Seq::new(ids.len(), |i: int| (decimal(ids[i] as nat), Json::Bool(true)))
}

pub open spec fn question_ids(qs: Seq<OnboardingQuestion>) -> Seq<u64> {
    qs.map_values(|q: OnboardingQuestion| q.id)
}

/// Every option id, question by question.
pub open spec fn all_option_ids(qs: Seq<OnboardingQuestion>) -> Seq<u64>
    decreases qs.len(),
{
    if qs.len() == 0 {
        Seq::empty()
    } else {
        all_option_ids(qs.drop_last()) + qs.last().options@.map_values(|o: OnboardingOption| o.id)
    }
}

/// The submission: the picked options, and, because Discord refuses a
/// submission without them, every question and every option that was
/// shown, each marked seen.
pub open spec fn submission_json(o: Onboarding, picked: Seq<u64>) -> Json {
    let k0 = crate::json::insert_sorted(Seq::empty(), "onboarding_responses"@, Json::Array(Seq::new(picked.len(), |i: int| Json::Str(decimal(picked[i] as nat)))));
    let k1 = crate::json::insert_sorted(k0, "onboarding_prompts_seen"@, Json::Object(crate::json::from_pairs(seen_pairs(question_ids(o.questions@)))));
    let k2 = crate::json::insert_sorted(k1, "onboarding_responses_seen"@, Json::Object(crate::json::from_pairs(seen_pairs(all_option_ids(o.questions@)))));
    Json::Object(k2)
}

fn mark_seen(fields: &mut Vec<(String, JsonValue)>, id: u64, ghost_ids: Ghost<Seq<u64>>)
    requires
        fields_model(old(fields)@) == crate::json::from_pairs(seen_pairs(ghost_ids@)),
    ensures
        fields_model(final(fields)@) == crate::json::from_pairs(seen_pairs(ghost_ids@.push(id))),
{
    put(fields, decimal_string(id).as_str(), JsonValue::Bool(true));
    proof {
        let s1 = seen_pairs(ghost_ids@.push(id));
        assert(s1.drop_last() =~= seen_pairs(ghost_ids@));
        assert(s1.last() == (decimal(id as nat), Json::Bool(true)));
    }
}

impl Onboarding {
    pub fn submission_body(&self, picked: &[u64]) -> (body: JsonValue)
        ensures
            body.model() == submission_json(*self, picked@),
    {
        let mut responses: Vec<JsonValue> = Vec::new();
        let n = picked.len();
        let mut i: usize = 0;
        while i < n
            invariant
                n == picked@.len(),
                i <= n,
                responses@.len() == i,
                forall|k: int| 0 <= k < i ==> (#[trigger] responses@[k]).model() == Json::Str(decimal(picked@[k] as nat)),
            decreases n - i,
        {
            responses.push(JsonValue::Str(decimal_string(picked[i])));
            i = i + 1;
        }
        proof {
            assert(items_model(responses@) =~= Seq::new(picked@.len(), |i: int| Json::Str(decimal(picked@[i] as nat))));
        }
        let mut prompts: Vec<(String, JsonValue)> = Vec::new();
        let mut options: Vec<(String, JsonValue)> = Vec::new();
        let ghost mut qids: Seq<u64> = Seq::empty();
        let ghost mut oids: Seq<u64> = Seq::empty();
        proof {
            assert(fields_model(prompts@) =~= crate::json::from_pairs(seen_pairs(qids)));
            assert(fields_model(options@) =~= crate::json::from_pairs(seen_pairs(oids)));
        }
        let m = self.questions.len();
        let mut q: usize = 0;
        while q < m
            invariant
                m == self.questions@.len(),
                q <= m,
                qids == question_ids(self.questions@.take(q as int)),
                oids == all_option_ids(self.questions@.take(q as int)),
                fields_model(prompts@) == crate::json::from_pairs(seen_pairs(qids)),
                fields_model(options@) == crate::json::from_pairs(seen_pairs(oids)),
            decreases m - q,
        {
            let question = &self.questions[q];
            mark_seen(&mut prompts, question.id, Ghost(qids));
            proof {
                assert(self.questions@.take(q + 1).drop_last() =~= self.questions@.take(q as int));
                assert(question_ids(self.questions@.take(q + 1)) =~= qids.push(question.id));
                qids = qids.push(question.id);
            }
            let k = question.options.len();
            let mut j: usize = 0;
            let ghost start = oids;
            proof {
                assert(question.options@.map_values(|o: OnboardingOption| o.id).take(0) =~= Seq::<u64>::empty());
                assert(start + Seq::<u64>::empty() =~= start);
            }
            while j < k
                invariant
                    k == question.options@.len(),
                    j <= k,
                    oids == start + question.options@.map_values(|o: OnboardingOption| o.id).take(j as int),
                    fields_model(options@) == crate::json::from_pairs(seen_pairs(oids)),
                decreases k - j,
            {
                mark_seen(&mut options, question.options[j].id, Ghost(oids));
                proof {
                    let ids = question.options@.map_values(|o: OnboardingOption| o.id);
                    assert(start + ids.take(j + 1) =~= (start + ids.take(j as int)).push(question.options@[j as int].id));
                    oids = oids.push(question.options@[j as int].id);
                }
                j = j + 1;
            }
            proof {
                let ids = question.options@.map_values(|o: OnboardingOption| o.id);
                assert(ids.take(k as int) =~= ids);
                assert(all_option_ids(self.questions@.take(q + 1)) =~= start + ids);
            }
            q = q + 1;
        }
        proof {
            assert(self.questions@.take(m as int) =~= self.questions@);
        }
        let mut fields: Vec<(String, JsonValue)> = Vec::new();
        proof {
            assert(fields_model(fields@) =~= Seq::<(Seq<char>, Json)>::empty());
        }
        put(&mut fields, "onboarding_responses", JsonValue::Array(responses));
        put(&mut fields, "onboarding_prompts_seen", JsonValue::Object(prompts));
        put(&mut fields, "onboarding_responses_seen", JsonValue::Object(options));
        JsonValue::Object(fields)
    }
}

} // verus!

//! The state machine of the terminal wizard: one question at a time, typed
//! input, submission with parsing, bounds and validation, the questions that
//! a chosen variant brings in, and going back. Drawing and reading keys
//! belong to the front end, which hands each key to
//! [`WizardState::handle_key`] until it reports the wizard over.
use vstd::prelude::*;
use crate::cli::{check_int_bounds, spec_int_bounds};
use crate::flat::{
    flat_list, flatten_questions, flats_match, lemma_flats_match_concat, opt_text, FlatKindSpec,
    FlatQuestion, FlatQuestionKind, FlatSpec,
};
use crate::path::{spec_child, spec_parent, ResponsePath};
use crate::question::{ListElementKind, QuestionKind, SurveyDefinition, Variant, SELECTED_VARIANT_KEY};
use crate::responses::Responses;
use crate::text::{
    decimal, i64_to_text, is_prefix, join3, list_items, parse_i64, rfind_char, signed_decimal,
    spec_list_items, spec_parse_i64, starts_with, str_eq, substring, usize_to_text,
};
use crate::value::{ResponseValue, ValueView};

verus! {

/// A key press, as far as the wizard cares.
#[derive(Debug)]
pub enum Key {
    Char(char),
    Backspace,
    Delete,
    Left,
    Right,
    Home,
    End,
    Up,
    Down,
    Enter,
    Esc,
    Other,
}

/// Floating-point work that the front end does for the wizard: reading a
/// number from text, comparing two numbers, and writing a number as text.
/// Numbers are `f64` bit patterns.
pub trait FloatText {
    /// The number written in `text`, if it is one.
    fn parse(&self, text: &str) -> Option<u64>;

    /// Whether `a` is less than `b`.
    fn less(&self, a: u64, b: u64) -> bool;

    /// `bits` written as text.
    fn show(&self, bits: u64) -> String;
}

/// The state of a wizard run.
#[derive(Debug)]
pub struct WizardState {
    /// The flattened questions, follow-ups included as they are chosen.
    pub questions: Vec<FlatQuestion>,
    /// The question being asked.
    pub current_index: usize,
    /// The answers so far.
    pub responses: Responses,
    /// The text being typed.
    pub input: String,
    /// The cursor position in the typed text, in characters.
    pub cursor_pos: usize,
    /// The highlighted option of a choice (for a confirmation, 0 is yes).
    pub selected_option: usize,
    /// The marked options of a multi-select.
    pub multi_selected: Vec<bool>,
    /// The message of the last refused submission.
    pub error_message: Option<String>,
    /// Whether every question is answered.
    pub complete: bool,
    /// Whether the user cancelled.
    pub cancelled: bool,
    /// The title, with the prelude below it.
    pub title: String,
    /// The closing message.
    pub epilogue: Option<String>,
}

/// Options marked in a multi-select of `n` options with the defaults `defaults`.
pub open spec fn default_flags(n: nat, defaults: Seq<usize>) -> Seq<bool> {
    Seq::new(n, |i: int| defaults.contains(i as usize))
}

/// The highlighted option for a question of kind `k`.
pub open spec fn initial_option(k: FlatQuestionKind) -> usize {
    match k {
        FlatQuestionKind::Select { default_idx, .. } => default_idx,
        FlatQuestionKind::Confirm { default } => if default {
            0
        } else {
            1
        },
        _ => 0,
    }
}

/// The marked options for a question of kind `k`.
pub open spec fn initial_flags(k: FlatQuestionKind) -> Seq<bool> {
    match k {
        FlatQuestionKind::MultiSelect { options, defaults, .. } => default_flags(
            options@.len(),
            defaults@,
        ),
        _ => Seq::<bool>::empty(),
    }
}

/// The text a submission reads: what was typed, or the default when nothing was.
pub open spec fn pending_text(input: Seq<char>, default_value: Option<String>) -> Seq<char> {
    if input.len() > 0 {
        input
    } else {
        match default_value {
            Some(d) => d@,
            None => Seq::<char>::empty(),
        }
    }
}

/// Reading the list items `items` as integers within the bounds: the numbers,
/// or the message for the first item that is no integer or out of bounds.
pub open spec fn spec_read_int_items(
    items: Seq<Seq<char>>,
    min: Option<i64>,
    max: Option<i64>,
) -> Result<Seq<i64>, Seq<char>>
    decreases items.len(),
{
    if items.len() == 0 {
        Ok(Seq::<i64>::empty())
    } else {
        match spec_read_int_items(items.drop_last(), min, max) {
            Err(e) => Err(e),
            Ok(v) => {
                let item = items.last();
                match spec_parse_i64(item) {
                    None => Err("'"@ + item + "' is not a valid integer"@),
                    Some(n) => if min is Some && n < min->0 {
                        Err(
                            "Value "@ + signed_decimal(n as int) + " must be at least "@
                                + signed_decimal(min->0 as int),
                        )
                    } else if max is Some && n > max->0 {
                        Err(
                            "Value "@ + signed_decimal(n as int) + " must be at most "@
                                + signed_decimal(max->0 as int),
                        )
                    } else {
                        Ok(v.push(n))
                    },
                }
            },
        }
    }
}

/// The answer a submission reads for a question of kind `k`, from the
/// pending text `text`, the typed text `input` (lists read it alone) and
/// the highlighted option; or the message why the text is refused. None for
/// the kinds this does not decide: floating-point ones, whose numbers the
/// front end reads, and choices.
pub open spec fn spec_read_answer(
    k: FlatQuestionKind,
    text: Seq<char>,
    input: Seq<char>,
    selected: usize,
) -> Option<Result<ValueView, Seq<char>>> {
    match k {
        FlatQuestionKind::Input => Some(Ok(ValueView::String(text))),
        FlatQuestionKind::Multiline => Some(Ok(ValueView::String(text))),
        FlatQuestionKind::Masked => Some(Ok(ValueView::String(text))),
        FlatQuestionKind::Int { min, max } => Some(
            match spec_parse_i64(text) {
                None => Err("Please enter a valid integer"@),
                Some(n) => match spec_int_bounds(n, min, max) {
                    Some(m) => Err(m),
                    None => Ok(ValueView::Int(n)),
                },
            },
        ),
        FlatQuestionKind::Confirm { .. } => Some(Ok(ValueView::Bool(selected == 0))),
        FlatQuestionKind::List { element_kind } => match element_kind {
            ListElementKind::String => Some(Ok(ValueView::StringList(spec_list_items(input)))),
            ListElementKind::Int { min, max } => Some(
                match spec_read_int_items(spec_list_items(input), min, max) {
                    Err(e) => Err(e),
                    Ok(v) => Ok(ValueView::IntList(v)),
                },
            ),
            ListElementKind::Float { .. } => None,
        },
        _ => None,
    }
}

/// Whether a kind's answers go through the validator when the question has one.
pub open spec fn validated_kind(k: FlatQuestionKind) -> bool {
    !(k is Confirm || k is Select || k is MultiSelect)
}

/// `validate` can be called on every value, collection and path.
pub open spec fn callable<F: Fn(&ResponseValue, &Responses, &ResponsePath) -> Result<(), String>>(
    validate: F,
) -> bool {
    forall|v: &ResponseValue, rs: &Responses, p: &ResponsePath| call_requires(validate, (v, rs, p))
}

/// The map `m` without the keys `ps`.
pub open spec fn remove_all(m: Map<Seq<char>, ValueView>, ps: Seq<Seq<char>>) -> Map<Seq<char>, ValueView>
    decreases ps.len(),
{
    if ps.len() == 0 {
        m
    } else {
        remove_all(m, ps.drop_last()).remove(ps.last())
    }
}

/// The number of questions from index `from` on that lie in the scope `base`
/// of a choice at `cur` (their paths begin with `base` and are not `cur`),
/// counted up to the first one that does not.
pub open spec fn scoped_run(qs: Seq<FlatQuestion>, from: int, base: Seq<char>, cur: Seq<char>) -> nat
    decreases qs.len() - from,
{
    if 0 <= from < qs.len() && is_prefix(base, qs[from].path@) && qs[from].path@ != cur {
        1 + scoped_run(qs, from + 1, base, cur)
    } else {
        0
    }
}

/// The paths of the questions `qs`.
pub open spec fn paths_of(qs: Seq<FlatQuestion>) -> Seq<Seq<char>> {
    Seq::new(qs.len(), |i: int| qs[i].path@)
}

/// The input that the single value of a chosen variant of kind `k` takes.
pub open spec fn single_value_kind(k: QuestionKind) -> FlatKindSpec {
    match k {
        QuestionKind::Int(iq) => FlatKindSpec::Int { min: iq.min, max: iq.max },
        QuestionKind::Float(fq) => FlatKindSpec::Float { min: fq.min, max: fq.max },
        QuestionKind::Confirm(cq) => FlatKindSpec::Confirm { default: cq.default },
        _ => FlatKindSpec::Input,
    }
}

/// The follow-up questions of variant `selected` of `variants`, for a choice
/// whose answers lie below `base`: the variant's group flattened below
/// `base`, nothing for a unit variant, one question for a single value.
pub open spec fn variant_follow_ups(variants: Seq<Variant>, selected: usize, base: Seq<char>) -> Seq<FlatSpec> {
    if selected < variants.len() {
        let v = variants[selected as int];
        match v.kind {
            QuestionKind::AllOf(a) => flat_list(a.questions@, base),
            QuestionKind::Unit => Seq::<FlatSpec>::empty(),
            _ => seq![
                FlatSpec {
                    path: spec_child(base, v.name@),
                    prompt: "Enter "@ + v.name@ + " value:"@,
                    kind: single_value_kind(v.kind),
                    default_value: None,
                    float_default: None,
                    assumed: None,
                    has_validation: false,
                },
            ],
        }
    } else {
        Seq::<FlatSpec>::empty()
    }
}

/// The indices of the marked options, in order.
pub open spec fn marked(flags: Seq<bool>) -> Seq<usize>
    decreases flags.len(),
{
    if flags.len() == 0 {
        Seq::<usize>::empty()
    } else if flags.last() {
        marked(flags.drop_last()).push((flags.len() - 1) as usize)
    } else {
        marked(flags.drop_last())
    }
}

/// The path below which the `n`-th chosen item of a multi-select at `base` is answered.
pub open spec fn item_path(base: Seq<char>, n: nat) -> Seq<char> {
    spec_child(base, decimal(n))
}

/// The follow-up questions of the chosen variants `chosen` of a multi-select
/// at `base`: the groups of the chosen variants, each flattened below its item path.
pub open spec fn items_follow_ups(variants: Seq<Variant>, chosen: Seq<usize>, base: Seq<char>) -> Seq<FlatSpec>
    decreases chosen.len(),
{
    if chosen.len() == 0 {
        Seq::<FlatSpec>::empty()
    } else {
        let prev = items_follow_ups(variants, chosen.drop_last(), base);
        let idx = chosen.last();
        if idx < variants.len() && variants[idx as int].kind is AllOf {
            prev + flat_list(
                variants[idx as int].kind->AllOf_0.questions@,
                item_path(base, (chosen.len() - 1) as nat),
            )
        } else {
            prev
        }
    }
}

/// The answers recording which variant each chosen item of a multi-select at
/// `base` is: `base.n.selected_variant` for the `n`-th item.
pub open spec fn items_answers(
    m: Map<Seq<char>, ValueView>,
    variants: Seq<Variant>,
    chosen: Seq<usize>,
    base: Seq<char>,
) -> Map<Seq<char>, ValueView>
    decreases chosen.len(),
{
    if chosen.len() == 0 {
        m
    } else {
        let prev = items_answers(m, variants, chosen.drop_last(), base);
        let idx = chosen.last();
        if idx < variants.len() {
            prev.insert(
                spec_child(item_path(base, (chosen.len() - 1) as nat), SELECTED_VARIANT_KEY@),
                ValueView::ChosenVariant(idx),
            )
        } else {
            prev
        }
    }
}

/// The choice stored at `k` of `m`, if a chosen variant is stored there.
pub open spec fn stored_choice(m: Map<Seq<char>, ValueView>, k: Seq<char>) -> Option<usize> {
    if m.contains_key(k) && m[k] is ChosenVariant {
        Some(m[k]->ChosenVariant_0)
    } else {
        None
    }
}

/// `qs` is `before` with the questions described by `added` placed after index `at`.
pub open spec fn spliced(qs: Seq<FlatQuestion>, before: Seq<FlatQuestion>, at: int, added: Seq<FlatSpec>) -> bool {
    &&& qs.len() == before.len() + added.len()
    &&& forall|j: int| 0 <= j <= at ==> qs[j] == before[j]
    &&& flats_match(qs.subrange(at + 1, at + 1 + added.len()), added)
    &&& forall|j: int| at < j < before.len() ==> qs[j + added.len()] == before[j]
}

/// The questions of a wizard with the answer to the choice at index `cur`
/// changed from `old_choice` to `selected`: the follow-ups of the previous
/// choice (the run of questions after `cur` in the choice's scope `base`)
/// are dropped, then those of the new choice are placed after `cur`.
pub open spec fn select_outcome(
    qs0: Seq<FlatQuestion>,
    qs1: Seq<FlatQuestion>,
    cur: int,
    base: Seq<char>,
    path: Seq<char>,
    changed: bool,
    added: Seq<FlatSpec>,
) -> bool {
    let k = if changed {
        scoped_run(qs0, cur + 1, base, path) as int
    } else {
        0
    };
    let kept = qs0.take(cur + 1) + qs0.skip(cur + 1 + k);
    spliced(qs1, kept, cur, added)
}

/// Editing the typed text of state `s0` with `key` gives state `s1`: a
/// character is inserted at the cursor; backspace and delete remove the
/// character before or at the cursor; the arrows, home and end move the
/// cursor; other keys change nothing. An edit that changes the text clears
/// the error message.
pub open spec fn edited(key: Key, s0: WizardState, s1: WizardState) -> bool {
    let s = s0.input@;
    let c0 = s0.cursor_pos as int;
    let kept = s1.input == s0.input && s1.error_message == s0.error_message;
    match key {
        Key::Char(c) => {
            &&& s1.input@ == s.take(c0) + seq![c] + s.skip(c0)
            &&& s1.cursor_pos == c0 + 1
            &&& s1.error_message is None
        },
        Key::Backspace => if c0 > 0 {
            &&& s1.input@ == s.take(c0 - 1) + s.skip(c0)
            &&& s1.cursor_pos == c0 - 1
            &&& s1.error_message is None
        } else {
            kept && s1.cursor_pos == c0
        },
        Key::Delete => if c0 < s.len() {
            &&& s1.input@ == s.take(c0) + s.skip(c0 + 1)
            &&& s1.cursor_pos == c0
            &&& s1.error_message is None
        } else {
            kept && s1.cursor_pos == c0
        },
        Key::Left => kept && s1.cursor_pos == (if c0 > 0 {
            c0 - 1
        } else {
            c0
        }),
        Key::Right => kept && s1.cursor_pos == (if c0 < s.len() {
            c0 + 1
        } else {
            c0
        }),
        Key::Home => kept && s1.cursor_pos == 0,
        Key::End => kept && s1.cursor_pos == s.len(),
        _ => kept && s1.cursor_pos == c0,
    }
}

impl WizardState {
    /// The current question, if any is left.
    pub fn current_question(&self) -> (r: Option<&FlatQuestion>)
        ensures
            self.current_index < self.questions@.len() ==> r == Some(
                &self.questions@[self.current_index as int],
            ),
            self.current_index >= self.questions@.len() ==> r is None,
    {
        if self.current_index < self.questions.len() {
            Some(&self.questions[self.current_index])
        } else {
            None
        }
    }

    /// The position of the current question (counted from 1) and the number
    /// of questions.
    pub fn progress(&self) -> (r: (usize, usize))
        requires
            self.current_index < usize::MAX,
        ensures
            r == (((self.current_index + 1) as usize, self.questions@.len() as usize)),
    {
        (self.current_index + 1, self.questions.len())
    }

    /// Edit the typed text with a key: a character is inserted at the
    /// cursor; backspace and delete remove the character before or at the
    /// cursor; the arrows, home and end move the cursor. An edit that
    /// changes the text clears the error message.
    pub fn handle_input(&mut self, key: Key)
        requires
            old(self).cursor_pos <= old(self).input@.len(),
            old(self).input@.len() < usize::MAX,
        ensures
            final(self).cursor_pos <= final(self).input@.len(),
            final(self).questions == old(self).questions,
            final(self).current_index == old(self).current_index,
            final(self).responses == old(self).responses,
            final(self).selected_option == old(self).selected_option,
            final(self).multi_selected == old(self).multi_selected,
            final(self).complete == old(self).complete,
            final(self).cancelled == old(self).cancelled,
            final(self).title == old(self).title,
            final(self).epilogue == old(self).epilogue,
            edited(key, *old(self), *final(self)),
    {
        let s = self.input.as_str();
        let n = s.unicode_len();
        let c0 = self.cursor_pos;
        match key {
            Key::Char(c) => {
                let mut t = substring(s, 0, c0);
                crate::text::push_char(&mut t, c);
                t.append(s.substring_char(c0, n));
                assert(s@.subrange(0, c0 as int) =~= s@.take(c0 as int));
                assert(s@.subrange(c0 as int, n as int) =~= s@.skip(c0 as int));
                assert(t@ =~= s@.take(c0 as int) + seq![c] + s@.skip(c0 as int));
                self.input = t;
                self.cursor_pos = c0 + 1;
                self.error_message = None;
            },
            Key::Backspace => {
                if c0 > 0 {
                    let mut t = substring(s, 0, c0 - 1);
                    t.append(s.substring_char(c0, n));
                    assert(s@.subrange(0, c0 - 1) =~= s@.take(c0 - 1));
                    assert(s@.subrange(c0 as int, n as int) =~= s@.skip(c0 as int));
                    assert(t@ =~= s@.take(c0 - 1) + s@.skip(c0 as int));
                    self.input = t;
                    self.cursor_pos = c0 - 1;
                    self.error_message = None;
                }
            },
            Key::Delete => {
                if c0 < n {
                    let mut t = substring(s, 0, c0);
                    t.append(s.substring_char(c0 + 1, n));
                    assert(s@.subrange(0, c0 as int) =~= s@.take(c0 as int));
                    assert(s@.subrange(c0 + 1, n as int) =~= s@.skip(c0 + 1));
                    assert(t@ =~= s@.take(c0 as int) + s@.skip(c0 + 1));
                    self.input = t;
                    self.error_message = None;
                }
            },
            Key::Left => {
                if c0 > 0 {
                    self.cursor_pos = c0 - 1;
                }
            },
            Key::Right => {
                if c0 < n {
                    self.cursor_pos = c0 + 1;
                }
            },
            Key::Home => {
                self.cursor_pos = 0;
            },
            Key::End => {
                self.cursor_pos = n;
            },
            _ => {},
        }
    }
}

} // verus!

verus! {

/// The marked options of `n` options, marked where `indices` names them.
pub fn flags_of(n: usize, indices: &Vec<usize>) -> (r: Vec<bool>)
    ensures
        r@ == default_flags(n as nat, indices@),
{
    let mut out: Vec<bool> = Vec::new();
    let mut i: usize = 0;
    while i < n
        invariant
            i <= n,
            out@.len() == i,
            forall|k: int| 0 <= k < i ==> out@[k] == indices@.contains(k as usize),
        decreases n - i,
    {
        let mut found = false;
        let mut j: usize = 0;
        while j < indices.len()
            invariant
                j <= indices@.len(),
                found == (exists|t: int| 0 <= t < j && indices@[t] == i),
            decreases indices@.len() - j,
        {
            if indices[j] == i {
                found = true;
            }
            j = j + 1;
        }
        out.push(found);
        i = i + 1;
    }
    assert(out@ =~= default_flags(n as nat, indices@));
    out
}

/// `m` with the assumed answers of the `n` questions from index `from`
/// stored in order.
pub open spec fn with_assumed(
    m: Map<Seq<char>, ValueView>,
    qs: Seq<FlatQuestion>,
    from: int,
    n: nat,
) -> Map<Seq<char>, ValueView>
    decreases n,
{
    if n == 0 {
        m
    } else {
        let q = qs[from + n - 1];
        with_assumed(m, qs, from, (n - 1) as nat).insert(q.path@, q.assumed->0@)
    }
}

/// Arriving at question `q` sets up, from state `s0`, what state `s1` shows:
/// the highlighted option of a confirmation or choice, the marked options of
/// a multi-select, else the pre-filled text with the cursor at its end.
pub open spec fn prefilled(q: FlatQuestion, s0: WizardState, s1: WizardState) -> bool {
    match q.kind {
        FlatQuestionKind::Confirm { .. } | FlatQuestionKind::Select { .. } => {
            &&& s1.selected_option == initial_option(q.kind)
            &&& s1.multi_selected == s0.multi_selected
            &&& s1.input == s0.input
            &&& s1.cursor_pos == s0.cursor_pos
        },
        FlatQuestionKind::MultiSelect { .. } => {
            &&& s1.selected_option == 0
            &&& s1.multi_selected@ == initial_flags(q.kind)
            &&& s1.input == s0.input
            &&& s1.cursor_pos == s0.cursor_pos
        },
        FlatQuestionKind::Float { .. } => {
            &&& s1.selected_option == s0.selected_option
            &&& s1.multi_selected == s0.multi_selected
            &&& match q.float_default {
                Some(_) => s1.cursor_pos == s1.input@.len(),
                None => s1.input == s0.input && s1.cursor_pos == s0.cursor_pos,
            }
        },
        _ => {
            &&& s1.selected_option == s0.selected_option
            &&& s1.multi_selected == s0.multi_selected
            &&& match q.default_value {
                Some(d) => s1.input@ == d@ && s1.cursor_pos == d@.len(),
                None => s1.input == s0.input && s1.cursor_pos == s0.cursor_pos,
            }
        },
    }
}

impl WizardState {
    /// A wizard at the first question of `definition`, with `title` and the
    /// survey's prelude below it as its title. A first question that is a
    /// choice or confirmation starts at its default.
    pub fn new(definition: &SurveyDefinition, title: String) -> (r: Self)
        ensures
            flats_match(r.questions@, flat_list(definition.questions@, Seq::<char>::empty())),
            r.current_index == 0,
            r.responses@ == Map::<Seq<char>, ValueView>::empty(),
            r.input@ == Seq::<char>::empty(),
            r.cursor_pos == 0,
            r.selected_option == (if r.questions@.len() > 0 {
                initial_option(r.questions@[0].kind)
            } else {
                0
            }),
            r.multi_selected@ == (if r.questions@.len() > 0 {
                initial_flags(r.questions@[0].kind)
            } else {
                Seq::<bool>::empty()
            }),
            r.error_message is None,
            !r.complete,
            !r.cancelled,
            r.title@ == match definition.prelude {
                Some(p) => title@ + "\n"@ + p@,
                None => title@,
            },
            opt_text(r.epilogue) == opt_text(definition.epilogue),
    {
        let root = ResponsePath::empty();
        let questions = flatten_questions(&definition.questions, &root);
        proof {
            reveal_strlit("\n");
        }
        let display_title = match &definition.prelude {
            Some(p) => join3(title.as_str(), "\n", p.as_str()),
            None => title,
        };
        let mut selected_option: usize = 0;
        let mut multi_selected: Vec<bool> = Vec::new();
        if questions.len() > 0 {
            match &questions[0].kind {
                FlatQuestionKind::MultiSelect { options, defaults, .. } => {
                    multi_selected = flags_of(options.len(), defaults);
                    proof {
                        assert(options.deep_view().len() == options@.len());
                    }
                },
                FlatQuestionKind::Select { default_idx, .. } => {
                    selected_option = *default_idx;
                },
                FlatQuestionKind::Confirm { default } => {
                    selected_option = if *default {
                        0
                    } else {
                        1
                    };
                },
                _ => {},
            }
        }
        let epilogue = match &definition.epilogue {
            Some(e) => Some(e.clone()),
            None => None,
        };
        WizardState {
            questions,
            current_index: 0,
            responses: Responses::new(),
            input: String::new(),
            cursor_pos: 0,
            selected_option,
            multi_selected,
            error_message: None,
            complete: false,
            cancelled: false,
            title: display_title,
            epilogue,
        }
    }
}


/// `items` written one after the other with `sep` between them.
pub open spec fn joined(items: Seq<Seq<char>>, sep: Seq<char>) -> Seq<char>
    decreases items.len(),
{
    if items.len() == 0 {
        Seq::<char>::empty()
    } else if items.len() == 1 {
        items[0]
    } else {
        joined(items.drop_last(), sep) + sep + items.last()
    }
}

/// The decimal numerals of the integers `l`.
pub open spec fn numerals(l: Seq<i64>) -> Seq<Seq<char>> {
    Seq::new(l.len(), |k: int| signed_decimal(l[k] as int))
}

/// The texts `items` with `sep` between them.
pub fn join_texts(items: &Vec<String>, sep: &str) -> (r: String)
    ensures
        r@ == joined(items.deep_view(), sep@),
{
    let mut out = String::new();
    let mut i: usize = 0;
    proof {
        assert(items.deep_view().take(0) =~= Seq::<Seq<char>>::empty());
    }
    while i < items.len()
        invariant
            i <= items@.len(),
            out@ == joined(items.deep_view().take(i as int), sep@),
        decreases items@.len() - i,
    {
        let ghost before = out@;
        let ghost t = items.deep_view().take(i + 1);
        if i > 0 {
            out.append(sep);
        }
        out.append(items[i].as_str());
        proof {
            assert(t.drop_last() =~= items.deep_view().take(i as int));
            assert(t.last() == items@[i as int]@);
            if i == 0 {
                assert(out@ =~= items@[0]@);
            } else {
                assert(out@ =~= before + sep@ + items@[i as int]@);
            }
        }
        i = i + 1;
    }
    proof {
        assert(items.deep_view().take(items@.len() as int) =~= items.deep_view());
    }
    out
}

/// The decimal numerals of the integers `l`.
pub fn numeral_texts(l: &Vec<i64>) -> (r: Vec<String>)
    ensures
        r.deep_view() == numerals(l@),
{
    let mut out: Vec<String> = Vec::new();
    let mut i: usize = 0;
    while i < l.len()
        invariant
            i <= l@.len(),
            out@.len() == i,
            forall|k: int| 0 <= k < i ==> out@[k]@ == signed_decimal(l@[k] as int),
        decreases l@.len() - i,
    {
        out.push(i64_to_text(l[i]));
        i = i + 1;
    }
    assert(out.deep_view() =~= numerals(l@));
    out
}

/// The numbers `l` (bit patterns) written as text by `floats`.
fn float_texts<O: FloatText>(floats: &O, l: &Vec<u64>) -> (r: Vec<String>)
    ensures
        r@.len() == l@.len(),
{
    let mut out: Vec<String> = Vec::new();
    let mut i: usize = 0;
    while i < l.len()
        invariant
            i <= l@.len(),
            out@.len() == i,
        decreases l@.len() - i,
    {
        out.push(floats.show(l[i]));
        i = i + 1;
    }
    out
}

/// Going back to question `i` of `qs` restores, from state `s0`, its stored
/// answer in `m` into state `s1`: text and numbers as the typed text with
/// the cursor at its end, lists joined by `, `, a confirmation or choice as
/// the highlighted option, a multi-select's choices as its marked options.
pub open spec fn restored(
    qs: Seq<FlatQuestion>,
    m: Map<Seq<char>, ValueView>,
    i: int,
    s0: WizardState,
    s1: WizardState,
) -> bool {
    let empty_text = s1.input@ == Seq::<char>::empty() && s1.cursor_pos == 0;
    let text_at_end = s1.cursor_pos == s1.input@.len();
    let no_marks = s1.multi_selected@ == Seq::<bool>::empty();
    let same_option = s1.selected_option == s0.selected_option;
    if 0 <= i < qs.len() && m.contains_key(qs[i].path@) {
        match m[qs[i].path@] {
            ValueView::String(s) => s1.input@ == s && text_at_end && no_marks && same_option,
            ValueView::Int(n) => s1.input@ == signed_decimal(n as int) && text_at_end && no_marks
                && same_option,
            ValueView::Float(_) => text_at_end && no_marks && same_option,
            ValueView::Bool(b) => empty_text && no_marks && s1.selected_option == (if b {
                0usize
            } else {
                1usize
            }),
            ValueView::ChosenVariant(k) => empty_text && no_marks && s1.selected_option == k,
            ValueView::ChosenVariants(ks) => empty_text && same_option && s1.multi_selected@ == (
            match qs[i].kind {
                FlatQuestionKind::MultiSelect { options, .. } => default_flags(options@.len(), ks),
                _ => Seq::<bool>::empty(),
            }),
            ValueView::StringList(l) => s1.input@ == joined(l, ", "@) && text_at_end && no_marks
                && same_option,
            ValueView::IntList(l) => s1.input@ == joined(numerals(l), ", "@) && text_at_end
                && no_marks && same_option,
            ValueView::FloatList(_) => text_at_end && no_marks && same_option,
        }
    } else {
        empty_text && no_marks && same_option
    }
}

/// Arriving at the current question of `s0` gives `s1`: the assumed
/// answers of the questions from there on are stored and those questions
/// passed; the question reached is set up as [`prefilled`] says, or the
/// wizard is complete when none is left.
pub open spec fn entered(s0: WizardState, s1: WizardState) -> bool {
    let qs = s0.questions@;
    let i0 = s0.current_index as int;
    let j = s1.current_index as int;
    &&& s1.questions == s0.questions
    &&& i0 <= j <= qs.len()
    &&& forall|k: int| i0 <= k < j ==> qs[k].assumed is Some
    &&& j < qs.len() ==> qs[j].assumed is None
    &&& s1.responses@ == with_assumed(s0.responses@, qs, i0, (j - i0) as nat)
    &&& s1.complete == (s0.complete || j == qs.len())
    &&& j < qs.len() ==> prefilled(qs[j], s0, s1)
    &&& j == qs.len() ==> {
        &&& s1.input == s0.input
        &&& s1.cursor_pos == s0.cursor_pos
        &&& s1.selected_option == s0.selected_option
        &&& s1.multi_selected == s0.multi_selected
    }
    &&& s1.error_message == s0.error_message
    &&& s1.cancelled == s0.cancelled
    &&& s1.title == s0.title
    &&& s1.epilogue == s0.epilogue
}

/// Going back from `s0` gives `s1`: nothing happens at the first question;
/// else the previous question becomes current with its stored answer
/// [`restored`] and no error message.
pub open spec fn went_back(s0: WizardState, s1: WizardState) -> bool {
    if s0.current_index == 0 {
        s1 == s0
    } else {
        &&& s1.current_index == s0.current_index - 1
        &&& s1.questions == s0.questions
        &&& s1.responses == s0.responses
        &&& s1.error_message is None
        &&& s1.complete == s0.complete
        &&& s1.cancelled == s0.cancelled
        &&& s1.title == s0.title
        &&& s1.epilogue == s0.epilogue
        &&& restored(s0.questions@, s0.responses@, s0.current_index - 1, s0, s1)
    }
}

impl WizardState {
    /// Store the assumed answers of the questions from the current one on
    /// and move past them; then set up the question reached (its default
    /// option, marks or text), or mark the wizard complete when none is left.
    pub fn enter_question<O: FloatText>(&mut self, floats: &O)
        requires
            old(self).current_index <= old(self).questions@.len(),
        ensures
            entered(*old(self), *final(self)),
    {
        let ghost start = self.current_index as int;
        let ghost m0 = self.responses@;
        while self.current_index < self.questions.len()
            && self.questions[self.current_index].assumed.is_some()
            invariant
                start <= self.current_index <= self.questions@.len(),
                self.questions == old(self).questions,
                forall|k: int| start <= k < self.current_index ==> self.questions@[k].assumed is Some,
                self.responses@ == with_assumed(
                    m0,
                    self.questions@,
                    start,
                    (self.current_index - start) as nat,
                ),
                self.input == old(self).input,
                self.cursor_pos == old(self).cursor_pos,
                self.selected_option == old(self).selected_option,
                self.multi_selected == old(self).multi_selected,
                self.complete == old(self).complete,
                self.error_message == old(self).error_message,
                self.cancelled == old(self).cancelled,
                self.title == old(self).title,
                self.epilogue == old(self).epilogue,
            decreases self.questions@.len() - self.current_index,
        {
            let i = self.current_index;
            if let Some(v) = &self.questions[i].assumed {
                let value = v.clone();
                let path = self.questions[i].path.clone();
                self.responses.insert(path, value);
            }
            self.current_index = i + 1;
        }
        if self.current_index < self.questions.len() {
            let i = self.current_index;
            match &self.questions[i].kind {
                FlatQuestionKind::Confirm { default } => {
                    self.selected_option = if *default {
                        0
                    } else {
                        1
                    };
                },
                FlatQuestionKind::Select { default_idx, .. } => {
                    self.selected_option = *default_idx;
                },
                FlatQuestionKind::MultiSelect { options, defaults, .. } => {
                    let flags = flags_of(options.len(), defaults);
                    proof {
                        assert(options.deep_view().len() == options@.len());
                    }
                    self.multi_selected = flags;
                    self.selected_option = 0;
                },
                FlatQuestionKind::Float { .. } => {
                    if let Some(bits) = self.questions[i].float_default {
                        let text = floats.show(bits);
                        self.cursor_pos = text.as_str().unicode_len();
                        self.input = text;
                    }
                },
                _ => {
                    if let Some(d) = &self.questions[i].default_value {
                        self.input = d.clone();
                        self.cursor_pos = d.as_str().unicode_len();
                    }
                },
            }
        } else {
            self.complete = true;
        }
    }

    /// Go back one question, if there is one before: the stored answer of
    /// that question becomes the typed text, the highlighted option or the
    /// marked options again, and the error message is cleared.
    pub fn prev_question<O: FloatText>(&mut self, floats: &O)
        ensures
            went_back(*old(self), *final(self)),
    {
        if self.current_index == 0 {
            return;
        }
        let i = self.current_index - 1;
        self.current_index = i;
        self.input = String::new();
        self.cursor_pos = 0;
        self.multi_selected = Vec::new();
        self.error_message = None;
        if i >= self.questions.len() {
            return;
        }
        let stored = match self.responses.get(&self.questions[i].path) {
            Some(v) => Some(v.clone()),
            None => None,
        };
        proof {
            reveal_strlit(", ");
        }
        match stored {
            Some(ResponseValue::String(s)) => {
                self.cursor_pos = s.as_str().unicode_len();
                self.input = s;
            },
            Some(ResponseValue::Int(n)) => {
                let t = i64_to_text(n);
                self.cursor_pos = t.as_str().unicode_len();
                self.input = t;
            },
            Some(ResponseValue::Float(b)) => {
                let t = floats.show(b);
                self.cursor_pos = t.as_str().unicode_len();
                self.input = t;
            },
            Some(ResponseValue::Bool(b)) => {
                self.selected_option = if b {
                    0
                } else {
                    1
                };
            },
            Some(ResponseValue::ChosenVariant(k)) => {
                self.selected_option = k;
            },
            Some(ResponseValue::ChosenVariants(ks)) => {
                if let FlatQuestionKind::MultiSelect { options, .. } = &self.questions[i].kind {
                    let flags = flags_of(options.len(), &ks);
                    self.multi_selected = flags;
                }
            },
            Some(ResponseValue::StringList(l)) => {
                let t = join_texts(&l, ", ");
                self.cursor_pos = t.as_str().unicode_len();
                self.input = t;
            },
            Some(ResponseValue::IntList(l)) => {
                let texts = numeral_texts(&l);
                let t = join_texts(&texts, ", ");
                self.cursor_pos = t.as_str().unicode_len();
                self.input = t;
            },
            Some(ResponseValue::FloatList(l)) => {
                let texts = float_texts(floats, &l);
                let t = join_texts(&texts, ", ");
                self.cursor_pos = t.as_str().unicode_len();
                self.input = t;
            },
            None => {},
        }
    }
}


/// Once reading a list of integers fails on its first `j` items, it fails
/// the same way on the whole list.
proof fn lemma_read_int_items_err(items: Seq<Seq<char>>, j: int, min: Option<i64>, max: Option<i64>)
    requires
        0 <= j <= items.len(),
        spec_read_int_items(items.take(j), min, max) is Err,
    ensures
        spec_read_int_items(items, min, max) == spec_read_int_items(items.take(j), min, max),
    decreases items.len(),
{
    if items.len() == j {
        assert(items.take(j) =~= items);
    } else {
        assert(items.drop_last().take(j) =~= items.take(j));
        lemma_read_int_items_err(items.drop_last(), j, min, max);
    }
}

/// The text `'item' is not a valid ...`.
fn quoted_message(item: &str, what: &str) -> (r: String)
    ensures
        r@ == "'"@ + item@ + "' is not a valid "@ + what@,
{
    proof {
        reveal_strlit("'");
        reveal_strlit("' is not a valid ");
    }
    let mut m = "'".to_owned();
    m.append(item);
    m.append("' is not a valid ");
    m.append(what);
    m
}

/// The text `Value N must be at WHICH B`.
pub open spec fn value_bound_text(n: Seq<char>, which: Seq<char>, bound: Seq<char>) -> Seq<char> {
    "Value "@ + n + " must be at "@ + which + " "@ + bound
}

/// The text `Value N must be at WHICH B`.
fn bound_message(n: &str, which: &str, bound: &str) -> (r: String)
    ensures
        r@ == value_bound_text(n@, which@, bound@),
{
    proof {
        reveal_strlit("Value ");
        reveal_strlit(" must be at ");
        reveal_strlit(" ");
    }
    let mut m = "Value ".to_owned();
    m.append(n);
    m.append(" must be at ");
    m.append(which);
    m.append(" ");
    m.append(bound);
    m
}

/// The list items read as integers within the bounds, or the message for
/// the first one that is no integer or out of bounds.
pub fn read_int_items(items: &Vec<String>, min: Option<i64>, max: Option<i64>) -> (r: Result<
    Vec<i64>,
    String,
>)
    ensures
        match r {
            Ok(v) => spec_read_int_items(items.deep_view(), min, max) == Ok::<Seq<i64>, Seq<char>>(v@),
            Err(e) => spec_read_int_items(items.deep_view(), min, max) == Err::<Seq<i64>, Seq<char>>(e@),
        },
{
    let mut out: Vec<i64> = Vec::new();
    let mut i: usize = 0;
    proof {
        assert(items.deep_view().take(0) =~= Seq::<Seq<char>>::empty());
    }
    while i < items.len()
        invariant
            i <= items@.len(),
            spec_read_int_items(items.deep_view().take(i as int), min, max) == Ok::<
                Seq<i64>,
                Seq<char>,
            >(out@),
        decreases items@.len() - i,
    {
        let ghost t = items.deep_view().take(i + 1);
        proof {
            assert(t.drop_last() =~= items.deep_view().take(i as int));
            assert(t.last() == items@[i as int]@);
        }
        let item = items[i].as_str();
        match parse_i64(item) {
            None => {
                proof {
                    reveal_strlit("integer");
                }
                let m = quoted_message(item, "integer");
                proof {
                    reveal_strlit("' is not a valid integer");
                    reveal_strlit("' is not a valid ");
                    assert(m@ =~= "'"@ + item@ + "' is not a valid integer"@);
                    lemma_read_int_items_err(items.deep_view(), i + 1, min, max);
                }
                return Err(m);
            },
            Some(n) => {
                match min {
                    Some(lo) => if n < lo {
                        let nt = i64_to_text(n);
                        let lt = i64_to_text(lo);
                        proof {
                            reveal_strlit("least");
                        }
                        let m = bound_message(nt.as_str(), "least", lt.as_str());
                        proof {
                            reveal_strlit(" must be at least ");
                            reveal_strlit(" must be at ");
                            reveal_strlit(" ");
                            assert(m@ =~= "Value "@ + nt@ + " must be at least "@ + lt@);
                            lemma_read_int_items_err(items.deep_view(), i + 1, min, max);
                        }
                        return Err(m);
                    },
                    None => {},
                }
                match max {
                    Some(hi) => if n > hi {
                        let nt = i64_to_text(n);
                        let ht = i64_to_text(hi);
                        proof {
                            reveal_strlit("most");
                        }
                        let m = bound_message(nt.as_str(), "most", ht.as_str());
                        proof {
                            reveal_strlit(" must be at most ");
                            reveal_strlit(" must be at ");
                            reveal_strlit(" ");
                            assert(m@ =~= "Value "@ + nt@ + " must be at most "@ + ht@);
                            lemma_read_int_items_err(items.deep_view(), i + 1, min, max);
                        }
                        return Err(m);
                    },
                    None => {},
                }
                out.push(n);
            },
        }
        i = i + 1;
    }
    proof {
        assert(items.deep_view().take(items@.len() as int) =~= items.deep_view());
    }
    Ok(out)
}

/// The list items read as numbers by `floats` within the bounds, or the
/// message for the first one that is no number or out of bounds.
fn read_float_items<O: FloatText>(
    floats: &O,
    items: &Vec<String>,
    min: Option<u64>,
    max: Option<u64>,
) -> (r: Result<Vec<u64>, String>)
    ensures
        r matches Ok(v) ==> v@.len() == items@.len(),
        items@.len() == 0 ==> r is Ok,
        r matches Err(e) ==> exists|i: int|
            #![trigger items@[i]]
            0 <= i < items@.len() && {
                ||| e@ == "'"@ + items@[i]@ + "' is not a valid "@ + "number"@
                ||| min is Some && exists|a: Seq<char>, b: Seq<char>|
                    #![trigger value_bound_text(a, "least"@, b)]
                    e@ == value_bound_text(a, "least"@, b)
                ||| max is Some && exists|a: Seq<char>, b: Seq<char>|
                    #![trigger value_bound_text(a, "most"@, b)]
                    e@ == value_bound_text(a, "most"@, b)
            },
{
    let mut out: Vec<u64> = Vec::new();
    let mut i: usize = 0;
    while i < items.len()
        invariant
            i <= items@.len(),
            out@.len() == i,
        decreases items@.len() - i,
    {
        let item = items[i].as_str();
        match floats.parse(item) {
            None => {
                return Err(quoted_message(item, "number"));
            },
            Some(n) => {
                match min {
                    Some(lo) => if floats.less(n, lo) {
                        let nt = floats.show(n);
                        let lt = floats.show(lo);
                        return Err(bound_message(nt.as_str(), "least", lt.as_str()));
                    },
                    None => {},
                }
                match max {
                    Some(hi) => if floats.less(hi, n) {
                        let nt = floats.show(n);
                        let ht = floats.show(hi);
                        return Err(bound_message(nt.as_str(), "most", ht.as_str()));
                    },
                    None => {},
                }
                out.push(n);
            },
        }
        i = i + 1;
    }
    Ok(out)
}

/// The number `text` is read as by `floats` (or the default `preset` when
/// nothing was typed), within the bounds; or the message why not.
fn read_float<O: FloatText>(
    floats: &O,
    text: &str,
    preset: Option<u64>,
    min: Option<u64>,
    max: Option<u64>,
) -> (r: Result<u64, String>)
    ensures
        text@.len() == 0 && preset is Some && r is Ok ==> r->Ok_0 == preset->0,
        r matches Err(e) ==> {
            ||| e@ == "Please enter a valid number"@ && !(text@.len() == 0 && preset is Some)
            ||| min is Some && is_prefix("Value must be at least "@, e@)
            ||| max is Some && is_prefix("Value must be at most "@, e@)
        },
{
    let n = if text.unicode_len() == 0 && preset.is_some() {
        match preset {
            Some(b) => b,
            None => 0,
        }
    } else {
        match floats.parse(text) {
            Some(b) => b,
            None => {
                return Err("Please enter a valid number".to_owned());
            },
        }
    };
    match min {
        Some(lo) => if floats.less(n, lo) {
            let mut m = "Value must be at least ".to_owned();
            let ghost head = m@;
            m.append(floats.show(lo).as_str());
            assert(m@.take(head.len() as int) =~= head);
            return Err(m);
        },
        None => {},
    }
    match max {
        Some(hi) => if floats.less(hi, n) {
            let mut m = "Value must be at most ".to_owned();
            let ghost head = m@;
            m.append(floats.show(hi).as_str());
            assert(m@.take(head.len() as int) =~= head);
            return Err(m);
        },
        None => {},
    }
    Ok(n)
}

/// Whether a kind's answer is a floating-point number or list of them.
pub open spec fn float_kind(k: FlatQuestionKind) -> bool {
    k is Float || (k matches FlatQuestionKind::List { element_kind } && element_kind is Float)
}

/// `v` has the shape a floating-point question of kind `k` answers with,
/// for the typed text `input`.
pub open spec fn float_shaped(k: FlatQuestionKind, input: Seq<char>, v: ValueView) -> bool {
    match k {
        FlatQuestionKind::Float { .. } => v is Float,
        _ => v is FloatList && v->FloatList_0.len() == spec_list_items(input).len(),
    }
}

/// The answer a submission reads for a question of kind `k` that is no
/// choice: from the pending text `text`, or the typed text `input` for a
/// list, or the highlighted option `selected` for a confirmation; or the
/// message why the text is refused. Numbers are read by `floats`, from the
/// default `preset` when nothing was typed.
pub fn read_answer<O: FloatText>(
    k: &FlatQuestionKind,
    text: &str,
    input: &str,
    selected: usize,
    preset: Option<u64>,
    floats: &O,
) -> (r: Option<Result<ResponseValue, String>>)
    ensures
        match spec_read_answer(*k, text@, input@, selected) {
            Some(Ok(v)) => r matches Some(Ok(rv)) && rv@ == v,
            Some(Err(m)) => r matches Some(Err(e)) && e@ == m,
            None => if float_kind(*k) {
                r matches Some(x) && (x matches Ok(rv) ==> float_shaped(*k, input@, rv@))
            } else {
                r is None
            },
        },
{
    proof {
        reveal_strlit("Please enter a valid integer");
    }
    match k {
        FlatQuestionKind::Input | FlatQuestionKind::Multiline | FlatQuestionKind::Masked => {
            Some(Ok(ResponseValue::String(text.to_owned())))
        },
        FlatQuestionKind::Int { min, max } => match parse_i64(text) {
            None => Some(Err("Please enter a valid integer".to_owned())),
            Some(n) => match check_int_bounds(n, *min, *max) {
                Err(m) => Some(Err(m)),
                Ok(_) => Some(Ok(ResponseValue::Int(n))),
            },
        },
        FlatQuestionKind::Float { min, max } => match read_float(floats, text, preset, *min, *max) {
            Err(m) => Some(Err(m)),
            Ok(n) => Some(Ok(ResponseValue::Float(n))),
        },
        FlatQuestionKind::Confirm { .. } => Some(Ok(ResponseValue::Bool(selected == 0))),
        FlatQuestionKind::List { element_kind } => {
            let items = list_items(input);
            match element_kind {
                ListElementKind::String => Some(Ok(ResponseValue::StringList(items))),
                ListElementKind::Int { min, max } => match read_int_items(&items, *min, *max) {
                    Err(m) => Some(Err(m)),
                    Ok(v) => Some(Ok(ResponseValue::IntList(v))),
                },
                ListElementKind::Float { min, max } => match read_float_items(
                    floats,
                    &items,
                    *min,
                    *max,
                ) {
                    Err(m) => Some(Err(m)),
                    Ok(v) => Some(Ok(ResponseValue::FloatList(v))),
                },
            }
        },
        _ => None,
    }
}


/// `s1` shows the same question, typed text, options, marks and messages as
/// `s0`, and has the same completion and cancellation.
pub open spec fn same_position(s0: WizardState, s1: WizardState) -> bool {
    &&& s1.current_index == s0.current_index
    &&& s1.input == s0.input
    &&& s1.cursor_pos == s0.cursor_pos
    &&& s1.selected_option == s0.selected_option
    &&& s1.multi_selected == s0.multi_selected
    &&& s1.complete == s0.complete
    &&& s1.cancelled == s0.cancelled
    &&& s1.title == s0.title
    &&& s1.epilogue == s0.epilogue
}

/// The indices of the marked options, in order.
pub fn marked_indices(flags: &Vec<bool>) -> (r: Vec<usize>)
    ensures
        r@ == marked(flags@),
{
    let mut out: Vec<usize> = Vec::new();
    let mut i: usize = 0;
    proof {
        assert(flags@.take(0) =~= Seq::<bool>::empty());
    }
    while i < flags.len()
        invariant
            i <= flags@.len(),
            out@ == marked(flags@.take(i as int)),
        decreases flags@.len() - i,
    {
        proof {
            assert(flags@.take(i + 1).drop_last() =~= flags@.take(i as int));
        }
        if flags[i] {
            out.push(i);
        }
        i = i + 1;
    }
    proof {
        assert(flags@.take(flags@.len() as int) =~= flags@);
    }
    out
}

/// The follow-up questions of variant `selected` of `variants`, for a choice
/// whose answers lie below `base`.
pub fn follow_ups_of(variants: &Vec<Variant>, selected: usize, base: &ResponsePath) -> (r: Vec<
    FlatQuestion,
>)
    ensures
        flats_match(r@, variant_follow_ups(variants@, selected, base@)),
{
    if selected >= variants.len() {
        return Vec::new();
    }
    let v = &variants[selected];
    match &v.kind {
        QuestionKind::AllOf(a) => flatten_questions(&a.questions, base),
        QuestionKind::Unit => Vec::new(),
        _ => {
            let kind = match &v.kind {
                QuestionKind::Int(iq) => FlatQuestionKind::Int { min: iq.min, max: iq.max },
                QuestionKind::Float(fq) => FlatQuestionKind::Float { min: fq.min, max: fq.max },
                QuestionKind::Confirm(cq) => FlatQuestionKind::Confirm { default: cq.default },
                _ => FlatQuestionKind::Input,
            };
            proof {
                reveal_strlit("Enter ");
                reveal_strlit(" value:");
            }
            let mut prompt = "Enter ".to_owned();
            prompt.append(v.name.as_str());
            prompt.append(" value:");
            let mut out: Vec<FlatQuestion> = Vec::new();
            out.push(
                FlatQuestion {
                    path: base.child(v.name.as_str()),
                    prompt,
                    kind,
                    default_value: None,
                    float_default: None,
                    assumed: None,
                    has_validation: false,
                },
            );
            out
        },
    }
}

/// Placing `added` after index `at` of `before` gives questions spliced as
/// `specs` describe when `added` matches `specs`.
proof fn lemma_spliced(
    qs: Seq<FlatQuestion>,
    before: Seq<FlatQuestion>,
    at: int,
    added: Seq<FlatQuestion>,
    specs: Seq<FlatSpec>,
)
    requires
        0 <= at < before.len(),
        qs == before.take(at + 1) + added + before.skip(at + 1),
        flats_match(added, specs),
    ensures
        spliced(qs, before, at, specs),
{
    assert(qs.subrange(at + 1, at + 1 + specs.len()) =~= added);
    assert forall|j: int| at < j < before.len() implies qs[j + specs.len()] == before[j] by {
        assert(qs[j + specs.len()] == before.skip(at + 1)[j - at - 1]);
    }
}

impl WizardState {
    /// Place `added` after question `at`.
    fn splice_after(&mut self, at: usize, added: Vec<FlatQuestion>)
        requires
            at < old(self).questions@.len(),
        ensures
            final(self).questions@ == old(self).questions@.take(at + 1) + added@ + old(
                self,
            ).questions@.skip(at + 1),
            final(self).responses == old(self).responses,
            final(self).error_message == old(self).error_message,
            same_position(*old(self), *final(self)),
    {
        let len = self.questions.len();
        assert(at < len);
        let mut tail = self.questions.split_off(at + 1);
        let mut more = added;
        self.questions.append(&mut more);
        self.questions.append(&mut tail);
        assert(self.questions@ =~= old(self).questions@.take(at + 1) + added@ + old(
            self,
        ).questions@.skip(at + 1));
    }

    /// Drop the run of questions after the current one that lie in the
    /// scope `base` of the choice at `path`, with their answers.
    fn remove_follow_ups(&mut self, base: &ResponsePath, path: &ResponsePath)
        requires
            old(self).current_index < old(self).questions@.len(),
        ensures
            ({
                let qs0 = old(self).questions@;
                let from = old(self).current_index + 1;
                let k = scoped_run(qs0, from, base@, path@);
                &&& from + k <= qs0.len()
                &&& final(self).questions@ == qs0.take(from) + qs0.skip(from + k)
                &&& final(self).responses@ == remove_all(
                    old(self).responses@,
                    paths_of(qs0.subrange(from, from + k)),
                )
            }),
            final(self).error_message == old(self).error_message,
            same_position(*old(self), *final(self)),
    {
        let ghost qs0 = self.questions@;
        let ghost m0 = self.responses@;
        let ghost mut n: int = 0;
        let len = self.questions.len();
        assert(self.current_index < len);
        let i = self.current_index + 1;
        proof {
            assert(qs0.take(i as int) + qs0.skip(i as int) =~= qs0);
            assert(qs0.subrange(i as int, i as int) =~= Seq::<FlatQuestion>::empty());
            assert(paths_of(qs0.subrange(i as int, i as int)) =~= Seq::<Seq<char>>::empty());
        }
        while i < self.questions.len() && starts_with(
            self.questions[i].path.as_str(),
            base.as_str(),
        ) && !str_eq(self.questions[i].path.as_str(), path.as_str())
            invariant
                i == old(self).current_index + 1,
                i <= qs0.len(),
                qs0 == old(self).questions@,
                m0 == old(self).responses@,
                0 <= n,
                i + n <= qs0.len(),
                self.questions@ == qs0.take(i as int) + qs0.skip(i + n),
                scoped_run(qs0, i as int, base@, path@) == n + scoped_run(qs0, i + n, base@, path@),
                self.responses@ == remove_all(m0, paths_of(qs0.subrange(i as int, i + n))),
                self.error_message == old(self).error_message,
                same_position(*old(self), *self),
            decreases self.questions@.len() - i,
        {
            let ghost gone = qs0[i + n];
            proof {
                assert(self.questions@[i as int] == gone);
            }
            self.responses.remove(&self.questions[i].path);
            self.questions.remove(i);
            proof {
                assert(paths_of(qs0.subrange(i as int, i + n + 1)).drop_last() =~= paths_of(
                    qs0.subrange(i as int, i + n),
                ));
                assert(paths_of(qs0.subrange(i as int, i + n + 1)).last() == gone.path@);
                assert(self.questions@ =~= qs0.take(i as int) + qs0.skip(i + n + 1));
                n = n + 1;
            }
        }
        proof {
            if i + n < qs0.len() {
                assert(self.questions@[i as int] == qs0[i + n]);
            }
        }
    }
}


impl WizardState {
    /// Record the highlighted option as the answer to the current choice.
    /// When it differs from `old_choice`, the earlier choice's follow-up
    /// questions and their answers go first; then the chosen variant's
    /// follow-up questions are placed after the choice.
    fn submit_choice(&mut self, old_choice: Option<usize>)
        requires
            old(self).current_index < old(self).questions@.len(),
            old(self).questions@[old(self).current_index as int].kind is Select,
        ensures
            ({
                let qs0 = old(self).questions@;
                let cur = old(self).current_index as int;
                let q = qs0[cur];
                let path = q.path@;
                let base = spec_parent(path);
                let sel = old(self).selected_option;
                let changed = old_choice is Some && old_choice->0 != sel;
                let k = if changed {
                    scoped_run(qs0, cur + 1, base, path) as int
                } else {
                    0
                };
                &&& cur + 1 + k <= qs0.len()
                &&& final(self).responses@ == remove_all(
                    old(self).responses@,
                    paths_of(qs0.subrange(cur + 1, cur + 1 + k)),
                ).insert(path, ValueView::ChosenVariant(sel))
                &&& select_outcome(
                    qs0,
                    final(self).questions@,
                    cur,
                    base,
                    path,
                    changed,
                    variant_follow_ups(q.kind->Select_variants@, sel, base),
                )
            }),
            final(self).error_message == old(self).error_message,
            same_position(*old(self), *final(self)),
    {
        let ghost qs0 = self.questions@;
        let ghost m0 = self.responses@;
        let i = self.current_index;
        let path = self.questions[i].path.clone();
        let base = parent_path(&path);
        let sel = self.selected_option;
        let changed = match old_choice {
            Some(c) => c != sel,
            None => false,
        };
        if changed {
            self.remove_follow_ups(&base, &path);
        } else {
            proof {
                assert(qs0.take(i + 1) + qs0.skip(i + 1 + 0) =~= qs0);
                assert(qs0.subrange(i + 1, i + 1) =~= Seq::<FlatQuestion>::empty());
                assert(paths_of(qs0.subrange(i + 1, i + 1)) =~= Seq::<Seq<char>>::empty());
            }
        }
        let ghost kept = self.questions@;
        proof {
            assert(kept[i as int] == qs0[i as int]);
        }
        self.responses.insert(path, ResponseValue::ChosenVariant(sel));
        let added = match &self.questions[i].kind {
            FlatQuestionKind::Select { variants, .. } => follow_ups_of(variants, sel, &base),
            _ => Vec::new(),
        };
        let ghost a = added@;
        self.splice_after(i, added);
        proof {
            let specs = variant_follow_ups(qs0[i as int].kind->Select_variants@, sel, base@);
            lemma_spliced(self.questions@, kept, i as int, a, specs);
        }
    }

    /// Record the marked options as the answer to the current multi-select:
    /// for each chosen variant, which one it is below its item path, and its
    /// follow-up questions placed after the multi-select, in order.
    fn submit_marks(&mut self)
        requires
            old(self).current_index < old(self).questions@.len(),
            old(self).questions@[old(self).current_index as int].kind is MultiSelect,
        ensures
            ({
                let qs0 = old(self).questions@;
                let cur = old(self).current_index as int;
                let q = qs0[cur];
                let path = q.path@;
                let base = spec_parent(path);
                let chosen = marked(old(self).multi_selected@);
                let vs = q.kind->MultiSelect_variants@;
                &&& final(self).responses@ == items_answers(
                    old(self).responses@.insert(path, ValueView::ChosenVariants(chosen)),
                    vs,
                    chosen,
                    base,
                )
                &&& spliced(final(self).questions@, qs0, cur, items_follow_ups(vs, chosen, base))
            }),
            final(self).error_message == old(self).error_message,
            same_position(*old(self), *final(self)),
    {
        let ghost qs0 = self.questions@;
        let i = self.current_index;
        let path = self.questions[i].path.clone();
        let base = parent_path(&path);
        let chosen = marked_indices(&self.multi_selected);
        self.responses.insert(path, ResponseValue::ChosenVariants(crate::value::copy_vec(&chosen)));
        let ghost m1 = self.responses@;
        let mut added: Vec<FlatQuestion> = Vec::new();
        let variants: &Vec<Variant> = match &self.questions[i].kind {
            FlatQuestionKind::MultiSelect { variants, .. } => variants,
            _ => {
                return;
            },
        };
        let ghost vs = variants@;
        let mut n: usize = 0;
        proof {
            assert(chosen@.take(0) =~= Seq::<usize>::empty());
        }
        while n < chosen.len()
            invariant
                n <= chosen@.len(),
                vs == variants@,
                vs == qs0[i as int].kind->MultiSelect_variants@,
                self.questions@ == qs0,
                i < qs0.len(),
                flats_match(added@, items_follow_ups(vs, chosen@.take(n as int), base@)),
                self.responses@ == items_answers(m1, vs, chosen@.take(n as int), base@),
                self.error_message == old(self).error_message,
                same_position(*old(self), *self),
            decreases chosen@.len() - n,
        {
            let ghost t = chosen@.take(n + 1);
            proof {
                assert(t.drop_last() =~= chosen@.take(n as int));
                assert(t.last() == chosen@[n as int]);
            }
            let idx = chosen[n];
            if idx < variants.len() {
                let number = usize_to_text(n);
                let item = base.child(number.as_str());
                self.responses.insert(
                    item.child(SELECTED_VARIANT_KEY),
                    ResponseValue::ChosenVariant(idx),
                );
                match &variants[idx].kind {
                    QuestionKind::AllOf(a) => {
                        let ghost before = added@;
                        let mut more = flatten_questions(&a.questions, &item);
                        let ghost m = more@;
                        added.append(&mut more);
                        proof {
                            lemma_flats_match_concat(
                                before,
                                items_follow_ups(vs, chosen@.take(n as int), base@),
                                m,
                                flat_list(a.questions@, item@),
                            );
                        }
                    },
                    _ => {},
                }
            }
            n = n + 1;
        }
        proof {
            assert(chosen@.take(chosen@.len() as int) =~= chosen@);
        }
        let ghost a = added@;
        self.splice_after(i, added);
        proof {
            lemma_spliced(
                self.questions@,
                qs0,
                i as int,
                a,
                items_follow_ups(vs, chosen@, base@),
            );
        }
    }

    /// Store `old_value` at `path` again, if there was one.
    fn put_back(&mut self, path: ResponsePath, old_value: Option<ResponseValue>)
        ensures
            final(self).responses@ == match old_value {
                Some(v) => old(self).responses@.insert(path@, v@),
                None => old(self).responses@,
            },
            final(self).questions == old(self).questions,
            final(self).error_message == old(self).error_message,
            same_position(*old(self), *final(self)),
    {
        match old_value {
            Some(v) => {
                self.responses.insert(path, v);
            },
            None => {},
        }
    }
}


/// `validate` judged the answer `v` at `path`, beside the other answers
/// `m`, with `verdict`.
pub open spec fn judged<F: Fn(&ResponseValue, &Responses, &ResponsePath) -> Result<(), String>>(
    validate: F,
    v: ValueView,
    m: Map<Seq<char>, ValueView>,
    path: Seq<char>,
    verdict: Result<(), String>,
) -> bool {
    exists|val: ResponseValue, rs: Responses, p: ResponsePath|
        #![trigger call_ensures(validate, (&val, &rs, &p), verdict)]
        val@ == v && rs@ == m && p@ == path && call_ensures(validate, (&val, &rs, &p), verdict)
}

/// `validate` accepted the answer `v` at `path`, beside the other answers `m`.
pub open spec fn passed<F: Fn(&ResponseValue, &Responses, &ResponsePath) -> Result<(), String>>(
    validate: F,
    v: ValueView,
    m: Map<Seq<char>, ValueView>,
    path: Seq<char>,
) -> bool {
    exists|val: ResponseValue, rs: Responses, p: ResponsePath, verdict: Result<(), String>|
        #![trigger call_ensures(validate, (&val, &rs, &p), verdict)]
        val@ == v && rs@ == m && p@ == path && call_ensures(validate, (&val, &rs, &p), verdict)
            && verdict is Ok
}

/// The outcome `r`, from state `s0` to `s1`, of submitting the answer `v` at
/// `path` over the answers `m0`: when `checked`, the validator judges it
/// beside the other answers, and a refusal keeps the answers and shows the
/// validator's message; else, or when accepted, `v` is stored at `path`.
pub open spec fn committed<F: Fn(&ResponseValue, &Responses, &ResponsePath) -> Result<(), String>>(
    validate: F,
    checked: bool,
    v: ValueView,
    path: Seq<char>,
    m0: Map<Seq<char>, ValueView>,
    r: bool,
    s0: WizardState,
    s1: WizardState,
) -> bool {
    if checked && !r {
        &&& s1.responses@ == m0
        &&& s1.error_message matches Some(e) && judged(validate, v, m0.remove(path), path, Err(e))
    } else {
        &&& r
        &&& s1.responses@ == m0.insert(path, v)
        &&& s1.error_message == s0.error_message
        &&& checked ==> passed(validate, v, m0.remove(path), path)
    }
}

/// The outcome `r`, from state `s0` to `s1`, of submitting the current
/// question. Nothing is submitted past the last question. A choice records
/// the highlighted variant (dropping the follow-ups of an earlier, different
/// one) and adds the chosen variant's follow-ups; a multi-select records the
/// marked variants and adds their follow-ups. Any other question reads its
/// answer from the typed text (or its default when nothing was typed): an
/// unreadable or out-of-bounds text is refused with its message, a readable
/// one is committed. Floating-point answers are read by the front end; of
/// them only their shape is stated.
pub open spec fn submitted<F: Fn(&ResponseValue, &Responses, &ResponsePath) -> Result<(), String>>(
    validate: F,
    s0: WizardState,
    s1: WizardState,
    r: bool,
) -> bool {
    if s0.current_index >= s0.questions@.len() {
        !r && s1 == s0
    } else {
        let qs0 = s0.questions@;
        let cur = s0.current_index as int;
        let q = qs0[cur];
        let path = q.path@;
        let m0 = s0.responses@;
        let base = spec_parent(path);
        &&& same_position(s0, s1)
        &&& match q.kind {
            FlatQuestionKind::Select { variants, .. } => {
                let sel = s0.selected_option;
                let changed = stored_choice(m0, path) is Some && stored_choice(m0, path)->0 != sel;
                let k = if changed {
                    scoped_run(qs0, cur + 1, base, path) as int
                } else {
                    0
                };
                &&& r
                &&& cur + 1 + k <= qs0.len()
                &&& s1.error_message == s0.error_message
                &&& s1.responses@ == remove_all(
                    m0.remove(path),
                    paths_of(qs0.subrange(cur + 1, cur + 1 + k)),
                ).insert(path, ValueView::ChosenVariant(sel))
                &&& select_outcome(
                    qs0,
                    s1.questions@,
                    cur,
                    base,
                    path,
                    changed,
                    variant_follow_ups(variants@, sel, base),
                )
            },
            FlatQuestionKind::MultiSelect { variants, .. } => {
                let chosen = marked(s0.multi_selected@);
                &&& r
                &&& s1.error_message == s0.error_message
                &&& s1.responses@ == items_answers(
                    m0.insert(path, ValueView::ChosenVariants(chosen)),
                    variants@,
                    chosen,
                    base,
                )
                &&& spliced(s1.questions@, qs0, cur, items_follow_ups(variants@, chosen, base))
            },
            _ => {
                &&& s1.questions == s0.questions
                &&& match spec_read_answer(
                    q.kind,
                    pending_text(s0.input@, q.default_value),
                    s0.input@,
                    s0.selected_option,
                ) {
                    Some(Err(msg)) => {
                        &&& !r
                        &&& s1.responses@ == m0
                        &&& s1.error_message matches Some(e) && e@ == msg
                    },
                    Some(Ok(v)) => committed(
                        validate,
                        q.has_validation && validated_kind(q.kind),
                        v,
                        path,
                        m0,
                        r,
                        s0,
                        s1,
                    ),
                    None => {
                        &&& r ==> exists|v: ValueView|
                            #![trigger float_shaped(q.kind, s0.input@, v)]
                            float_shaped(q.kind, s0.input@, v) && committed(
                                validate,
                                q.has_validation,
                                v,
                                path,
                                m0,
                                r,
                                s0,
                                s1,
                            )
                        &&& !r ==> s1.responses@ == m0 && s1.error_message is Some
                    },
                }
            },
        }
    }
}

impl WizardState {
    /// Submit the current question's answer, as [`submitted`] states; true
    /// when it was accepted.
    pub fn validate_and_submit<F, O>(&mut self, validate: &F, floats: &O) -> (r: bool) where
        F: Fn(&ResponseValue, &Responses, &ResponsePath) -> Result<(), String>,
        O: FloatText,

        requires
            callable(*validate),
        ensures
            submitted(*validate, *old(self), *final(self), r),
    {
        if self.current_index >= self.questions.len() {
            return false;
        }
        let ghost m0 = self.responses@;
        let i = self.current_index;
        let path = self.questions[i].path.clone();
        let old_value = self.responses.remove(&path);
        let which: u8 = match &self.questions[i].kind {
            FlatQuestionKind::Select { .. } => 1,
            FlatQuestionKind::MultiSelect { .. } => 2,
            _ => 0,
        };
        if which == 1 {
            let old_choice = match old_value {
                Some(ResponseValue::ChosenVariant(c)) => Some(c),
                _ => None,
            };
            self.submit_choice(old_choice);
            return true;
        }
        if which == 2 {
            proof {
                assert(m0.remove(path@).insert(path@, ValueView::ChosenVariants(marked(self.multi_selected@)))
                    =~= m0.insert(path@, ValueView::ChosenVariants(marked(self.multi_selected@))));
            }
            self.submit_marks();
            return true;
        }
        let text = if self.input.as_str().unicode_len() == 0 {
            match &self.questions[i].default_value {
                Some(d) => d.clone(),
                None => String::new(),
            }
        } else {
            self.input.clone()
        };
        let answer = read_answer(
            &self.questions[i].kind,
            text.as_str(),
            self.input.as_str(),
            self.selected_option,
            self.questions[i].float_default,
            floats,
        );
        match answer {
            Some(Err(m)) => {
                self.error_message = Some(m);
                self.put_back(path, old_value);
                proof {
                    assert(self.responses@ =~= m0);
                }
                false
            },
            Some(Ok(rv)) => {
                let checked = self.questions[i].has_validation && match &self.questions[i].kind {
                    FlatQuestionKind::Confirm { .. } => false,
                    _ => true,
                };
                proof {
                    if float_kind(self.questions@[i as int].kind) {
                        assert(float_shaped(self.questions@[i as int].kind, self.input@, rv@));
                    }
                }
                if checked {
                    let ghost snapshot = self.responses;
                    let verdict = validate(&rv, &self.responses, &path);
                    proof {
                        assert(call_ensures(*validate, (&rv, &snapshot, &path), verdict));
                    }
                    match verdict {
                        Err(e) => {
                            self.error_message = Some(e);
                            self.put_back(path, old_value);
                            proof {
                                assert(self.responses@ =~= m0);
                            }
                            return false;
                        },
                        Ok(()) => {
                            proof {
                                assert(snapshot@ == m0.remove(path@));
                                assert(passed(*validate, rv@, snapshot@, path@));
                            }
                        },
                    }
                }
                let ghost v = rv@;
                self.responses.insert(path, rv);
                proof {
                    assert(self.responses@ =~= m0.insert(path@, v));
                }
                true
            },
            None => {
                self.put_back(path, old_value);
                proof {
                    assert(self.responses@ =~= m0);
                }
                false
            },
        }
    }
}


/// The path without its last segment: the text before the last dot, or the
/// empty path when there is no dot.
pub fn parent_path(path: &ResponsePath) -> (r: ResponsePath)
    ensures
        r@ == spec_parent(path@),
{
    let s = path.as_str();
    proof {
        crate::text::lemma_last_index_bounds(s@, '.');
    }
    match rfind_char(s, '.') {
        Some(k) => {
            let head = substring(s, 0, k);
            assert(head@ =~= s@.take(k as int));
            ResponsePath::from_string(head)
        },
        None => ResponsePath::empty(),
    }
}

/// `t` is `s` moved on to the next question with nothing typed, the first
/// option highlighted, no marks and no error message.
pub open spec fn reset_from(s: WizardState, t: WizardState) -> bool {
    &&& t.current_index == s.current_index + 1
    &&& t.questions == s.questions
    &&& t.responses == s.responses
    &&& t.input@ == Seq::<char>::empty()
    &&& t.cursor_pos == 0
    &&& t.selected_option == 0
    &&& t.multi_selected@ == Seq::<bool>::empty()
    &&& t.error_message is None
    &&& t.complete == s.complete
    &&& t.cancelled == s.cancelled
    &&& t.title == s.title
    &&& t.epilogue == s.epilogue
}

/// Moving on from `s0` gives `s1`: the current question is submitted; when
/// the answer is accepted, the wizard is reset to the next question and
/// arrives there ([`entered`]), else it stays as the submission left it.
pub open spec fn stepped<F: Fn(&ResponseValue, &Responses, &ResponsePath) -> Result<(), String>>(
    validate: F,
    s0: WizardState,
    s1: WizardState,
) -> bool {
    exists|mid: WizardState, r: bool|
        #![trigger submitted(validate, s0, mid, r)]
        submitted(validate, s0, mid, r) && if r {
            exists|t: WizardState| #![trigger reset_from(mid, t)] reset_from(mid, t) && entered(t, s1)
        } else {
            s1 == mid
        }
}

/// Whether the current question of `s` is answered by moving a highlight.
pub open spec fn choosing(s: WizardState) -> bool {
    &&& s.current_index < s.questions@.len()
    &&& {
        let k = s.questions@[s.current_index as int].kind;
        k is Confirm || k is Select || k is MultiSelect
    }
}

/// The number of options the highlight moves over for the current question
/// of `s`: two for a confirmation, the options of a choice or multi-select.
pub open spec fn option_count(s: WizardState) -> nat {
    if s.current_index < s.questions@.len() {
        match s.questions@[s.current_index as int].kind {
            FlatQuestionKind::Confirm { .. } => 2,
            FlatQuestionKind::Select { options, .. } => options@.len(),
            FlatQuestionKind::MultiSelect { options, .. } => options@.len(),
            _ => 0,
        }
    } else {
        0
    }
}

/// The marks of a multi-select of `n` options after the space key, from
/// the marks `flags` with `sel` highlighted: marks of another size start
/// over unmarked; the highlighted one, if there is one, flips.
pub open spec fn toggled(flags: Seq<bool>, n: nat, sel: usize) -> Seq<bool> {
    let start = if flags.len() != n {
        default_flags(n, Seq::<usize>::empty())
    } else {
        flags
    };
    if sel < start.len() {
        start.update(sel as int, !start[sel as int])
    } else {
        start
    }
}

/// A key `key` turns `s0` into `s1`, with `done` when the wizard is over. A
/// complete wizard ends on enter or escape and ignores other keys. Else
/// escape cancels and ends; enter moves on ([`stepped`]); up and down move
/// the highlight of a confirmation, choice or multi-select within its
/// options; space flips the highlighted mark of a multi-select; backspace
/// with nothing typed goes back ([`went_back`]); other keys edit the typed
/// text ([`edited`]) unless the question is answered with a highlight.
pub open spec fn pressed<F: Fn(&ResponseValue, &Responses, &ResponsePath) -> Result<(), String>>(
    validate: F,
    key: Key,
    s0: WizardState,
    s1: WizardState,
    done: bool,
) -> bool {
    let typing = s1 == WizardState {
        input: s1.input,
        cursor_pos: s1.cursor_pos,
        error_message: s1.error_message,
        ..s0
    } && edited(key, s0, s1);
    let multi = s0.current_index < s0.questions@.len() && s0.questions@[s0.current_index as int].kind is MultiSelect;
    if s0.complete {
        done == (key is Enter || key is Esc) && s1 == s0
    } else {
        match key {
            Key::Esc => done && s1 == WizardState { cancelled: true, ..s0 },
            Key::Enter => !done && stepped(validate, s0, s1),
            Key::Up => !done && s1 == WizardState {
                selected_option: if choosing(s0) && s0.selected_option > 0 {
                    (s0.selected_option - 1) as usize
                } else {
                    s0.selected_option
                },
                ..s0
            },
            Key::Down => !done && s1 == WizardState {
                selected_option: if s0.selected_option + 1 < option_count(s0) {
                    (s0.selected_option + 1) as usize
                } else {
                    s0.selected_option
                },
                ..s0
            },
            Key::Char(c) => !done && if c == ' ' && multi {
                &&& s1 == WizardState { multi_selected: s1.multi_selected, ..s0 }
                &&& s1.multi_selected@ == toggled(
                    s0.multi_selected@,
                    option_count(s0),
                    s0.selected_option,
                )
            } else if c == ' ' || !choosing(s0) {
                typing
            } else {
                s1 == s0
            },
            Key::Backspace => !done && if s0.input@.len() == 0 && s0.current_index > 0 {
                went_back(s0, s1)
            } else if !choosing(s0) {
                typing
            } else {
                s1 == s0
            },
            _ => !done && if !choosing(s0) {
                typing
            } else {
                s1 == s0
            },
        }
    }
}

impl WizardState {
    /// Submit the current question and, when the answer is accepted, move on
    /// to the next question that is asked.
    pub fn next_question<F, O>(&mut self, validate: &F, floats: &O) where
        F: Fn(&ResponseValue, &Responses, &ResponsePath) -> Result<(), String>,
        O: FloatText,

        requires
            callable(*validate),
        ensures
            stepped(*validate, *old(self), *final(self)),
    {
        let accepted = self.validate_and_submit(validate, floats);
        let ghost mid = *self;
        if accepted {
            let count = self.questions.len();
            proof {
                assert(self.current_index < count);
            }
            self.current_index = self.current_index + 1;
            self.input = String::new();
            self.cursor_pos = 0;
            self.selected_option = 0;
            self.multi_selected = Vec::new();
            self.error_message = None;
            let ghost t = *self;
            proof {
                assert(reset_from(mid, t));
            }
            self.enter_question(floats);
        }
    }

    /// Act on a key, as [`pressed`] states; true when the wizard is over
    /// (finished or cancelled).
    pub fn handle_key<F, O>(&mut self, key: Key, validate: &F, floats: &O) -> (done: bool) where
        F: Fn(&ResponseValue, &Responses, &ResponsePath) -> Result<(), String>,
        O: FloatText,

        requires
            callable(*validate),
            old(self).cursor_pos <= old(self).input@.len(),
            old(self).input@.len() < usize::MAX,
        ensures
            pressed(*validate, key, *old(self), *final(self), done),
    {
        if self.complete {
            return match key {
                Key::Enter | Key::Esc => true,
                _ => false,
            };
        }
        let here = self.current_index < self.questions.len();
        let mut count: usize = 0;
        let mut choosing = false;
        let mut multi = false;
        if here {
            match &self.questions[self.current_index].kind {
                FlatQuestionKind::Confirm { .. } => {
                    count = 2;
                    choosing = true;
                },
                FlatQuestionKind::Select { options, .. } => {
                    count = options.len();
                    choosing = true;
                    proof {
                        assert(options.deep_view().len() == options@.len());
                    }
                },
                FlatQuestionKind::MultiSelect { options, .. } => {
                    count = options.len();
                    choosing = true;
                    multi = true;
                },
                _ => {},
            }
        }
        match key {
            Key::Esc => {
                self.cancelled = true;
                true
            },
            Key::Enter => {
                self.next_question(validate, floats);
                false
            },
            Key::Up => {
                if choosing && self.selected_option > 0 {
                    self.selected_option = self.selected_option - 1;
                }
                false
            },
            Key::Down => {
                if count > 0 && self.selected_option < count - 1 {
                    self.selected_option = self.selected_option + 1;
                }
                false
            },
            Key::Char(c) => {
                if c == ' ' && multi {
                    if self.multi_selected.len() != count {
                        let none: Vec<usize> = Vec::new();
                        self.multi_selected = flags_of(count, &none);
                    }
                    let sel = self.selected_option;
                    if sel < self.multi_selected.len() {
                        let flag = self.multi_selected[sel];
                        self.multi_selected.set(sel, !flag);
                    }
                } else if c == ' ' || !choosing {
                    self.handle_input(key);
                }
                false
            },
            Key::Backspace => {
                if self.input.as_str().unicode_len() == 0 && self.current_index > 0 {
                    self.prev_question(floats);
                } else if !choosing {
                    self.handle_input(key);
                }
                false
            },
            _ => {
                if !choosing {
                    self.handle_input(key);
                }
                false
            },
        }
    }
}


/// A refused submission changes neither the answers nor the questions: the
/// answer it replaced is back in place.
pub proof fn law_refusal_keeps_answers<F: Fn(&ResponseValue, &Responses, &ResponsePath) -> Result<
    (),
    String,
>>(validate: F, s0: WizardState, s1: WizardState)
    requires
        submitted(validate, s0, s1, false),
    ensures
        s1.responses@ == s0.responses@,
        s1.questions == s0.questions,
{
}

/// Going back to a text question just answered shows the text that was
/// submitted, with the cursor at its end.
pub proof fn law_back_shows_submitted_text<F: Fn(&ResponseValue, &Responses, &ResponsePath) -> Result<
    (),
    String,
>>(validate: F, s0: WizardState, s1: WizardState, s2: WizardState)
    requires
        s0.current_index < s0.questions@.len(),
        ({
            let k = s0.questions@[s0.current_index as int].kind;
            k is Input || k is Multiline || k is Masked
        }),
        s0.input@.len() > 0,
        stepped(validate, s0, s1),
        s1.current_index == s0.current_index + 1,
        went_back(s1, s2),
    ensures
        s2.current_index == s0.current_index,
        s2.input@ == s0.input@,
        s2.cursor_pos == s0.input@.len(),
{
    let (mid, r) = choose|mid: WizardState, r: bool|
        #![trigger submitted(validate, s0, mid, r)]
        submitted(validate, s0, mid, r) && if r {
            exists|t: WizardState| #![trigger reset_from(mid, t)] reset_from(mid, t) && entered(t, s1)
        } else {
            s1 == mid
        };
    assert(r);
    let t = choose|t: WizardState| #![trigger reset_from(mid, t)] reset_from(mid, t) && entered(t, s1);
    let i = s0.current_index as int;
    let path = s0.questions@[i].path@;
    assert(s1.responses@ == mid.responses@);
    assert(mid.responses@ == s0.responses@.insert(path, ValueView::String(s0.input@)));
    assert(s1.questions@[i].path@ == path);
}

/// Every key keeps the cursor within the typed text.
pub proof fn law_key_keeps_cursor_in_text<F: Fn(&ResponseValue, &Responses, &ResponsePath) -> Result<
    (),
    String,
>>(validate: F, key: Key, s0: WizardState, s1: WizardState, done: bool)
    requires
        pressed(validate, key, s0, s1, done),
        s0.cursor_pos <= s0.input@.len(),
    ensures
        s1.cursor_pos <= s1.input@.len(),
{
    if !s0.complete && key is Enter {
        let (mid, r) = choose|mid: WizardState, r: bool|
            #![trigger submitted(validate, s0, mid, r)]
            submitted(validate, s0, mid, r) && if r {
                exists|t: WizardState| #![trigger reset_from(mid, t)] reset_from(mid, t) && entered(t, s1)
            } else {
                s1 == mid
            };
        if r {
            let t = choose|t: WizardState| #![trigger reset_from(mid, t)] reset_from(mid, t) && entered(t, s1);
            if s1.current_index < t.questions@.len() {
                assert(prefilled(t.questions@[s1.current_index as int], t, s1));
            }
        }
    }
}


/// Every question in the scoped run from `from` lies in the scope and is not
/// the choice itself.
proof fn lemma_scoped_run_members(qs: Seq<FlatQuestion>, from: int, base: Seq<char>, cur: Seq<char>, j: int)
    requires
        from <= j < from + scoped_run(qs, from, base, cur),
    ensures
        0 <= j < qs.len(),
        is_prefix(base, qs[j].path@),
        qs[j].path@ != cur,
    decreases j - from,
{
    if j > from {
        lemma_scoped_run_members(qs, from + 1, base, cur, j);
    }
}

/// No key of `ps` is left in `remove_all(m, ps)`.
proof fn lemma_remove_all_absent(m: Map<Seq<char>, ValueView>, ps: Seq<Seq<char>>, i: int)
    requires
        0 <= i < ps.len(),
    ensures
        !remove_all(m, ps).contains_key(ps[i]),
    decreases ps.len(),
{
    if i < ps.len() - 1 {
        assert(ps.drop_last()[i] == ps[i]);
        lemma_remove_all_absent(m, ps.drop_last(), i);
    }
}

/// When the answer to a choice changes, the answers to the follow-up
/// questions of the earlier choice are cleared.
pub proof fn law_changed_choice_clears_follow_ups<F: Fn(&ResponseValue, &Responses, &ResponsePath) -> Result<
    (),
    String,
>>(validate: F, s0: WizardState, s1: WizardState, r: bool, j: int)
    requires
        submitted(validate, s0, s1, r),
        s0.current_index < s0.questions@.len(),
        s0.questions@[s0.current_index as int].kind is Select,
        ({
            let path = s0.questions@[s0.current_index as int].path@;
            let old_choice = stored_choice(s0.responses@, path);
            &&& old_choice is Some
            &&& old_choice->0 != s0.selected_option
            &&& s0.current_index < j < s0.current_index + 1 + scoped_run(
                s0.questions@,
                s0.current_index + 1,
                spec_parent(path),
                path,
            )
        }),
    ensures
        !s1.responses@.contains_key(s0.questions@[j].path@),
{
    let qs0 = s0.questions@;
    let cur = s0.current_index as int;
    let path = qs0[cur].path@;
    let base = spec_parent(path);
    let k = scoped_run(qs0, cur + 1, base, path) as int;
    lemma_scoped_run_members(qs0, cur + 1, base, path, j);
    let ps = paths_of(qs0.subrange(cur + 1, cur + 1 + k));
    assert(ps[j - cur - 1] == qs0[j].path@);
    lemma_remove_all_absent(s0.responses@.remove(path), ps, j - cur - 1);
}

} // verus!

verus! {

/// A question with a validator that takes a typed answer (text, multi-line,
/// masked, integer, floating-point, list) is only answered with what the
/// validator accepts: an accepted submission stores, at the question's path,
/// an answer that the validator passed beside the other answers.
pub proof fn law_validated_submission_passed<F: Fn(&ResponseValue, &Responses, &ResponsePath) -> Result<
    (),
    String,
>>(validate: F, s0: WizardState, s1: WizardState, r: bool)
    requires
        submitted(validate, s0, s1, r),
        s0.current_index < s0.questions@.len(),
        s0.questions@[s0.current_index as int].has_validation,
        !(s0.questions@[s0.current_index as int].kind is Confirm),
        !(s0.questions@[s0.current_index as int].kind is Select),
        !(s0.questions@[s0.current_index as int].kind is MultiSelect),
        r,
    ensures
        s1.responses@.contains_key(s0.questions@[s0.current_index as int].path@),
        passed(
            validate,
            s1.responses@[s0.questions@[s0.current_index as int].path@],
            s0.responses@.remove(s0.questions@[s0.current_index as int].path@),
            s0.questions@[s0.current_index as int].path@,
        ),
{
    let q = s0.questions@[s0.current_index as int];
    let m0 = s0.responses@;
    match spec_read_answer(
        q.kind,
        pending_text(s0.input@, q.default_value),
        s0.input@,
        s0.selected_option,
    ) {
        Some(Err(_)) => {},
        Some(Ok(v)) => {
            assert(validated_kind(q.kind));
            assert(s1.responses@ == m0.insert(q.path@, v));
        },
        None => {
            let v = choose|v: ValueView|
                #![trigger float_shaped(q.kind, s0.input@, v)]
                float_shaped(q.kind, s0.input@, v) && committed(
                    validate,
                    q.has_validation,
                    v,
                    q.path@,
                    m0,
                    r,
                    s0,
                    s1,
                );
            assert(s1.responses@ == m0.insert(q.path@, v));
        },
    }
}

/// An integer answer goes through the validator: when the current integer
/// question has a validator and the submission is accepted, the stored
/// answer is the typed (or default) text read as an integer within the
/// bounds, and the validator passed it.
pub proof fn law_validated_integer_submission<F: Fn(&ResponseValue, &Responses, &ResponsePath) -> Result<
    (),
    String,
>>(validate: F, s0: WizardState, s1: WizardState, r: bool, min: Option<i64>, max: Option<i64>)
    requires
        submitted(validate, s0, s1, r),
        s0.current_index < s0.questions@.len(),
        s0.questions@[s0.current_index as int].has_validation,
        s0.questions@[s0.current_index as int].kind == (FlatQuestionKind::Int { min, max }),
    ensures
        ({
            let q = s0.questions@[s0.current_index as int];
            let n = spec_parse_i64(pending_text(s0.input@, q.default_value));
            (n is None || (min is Some && n->0 < min->0) || (max is Some && n->0 > max->0)) ==> !r
        }),
        r ==> ({
            let q = s0.questions@[s0.current_index as int];
            let n = spec_parse_i64(pending_text(s0.input@, q.default_value))->0;
            &&& s1.responses@ == s0.responses@.insert(q.path@, ValueView::Int(n))
            &&& passed(validate, ValueView::Int(n), s0.responses@.remove(q.path@), q.path@)
        }),
        !r ==> s1.responses@ == s0.responses@ && s1.error_message is Some,
{
}

/// A list of integers is read item by item: when the read succeeds, there
/// is one number per item, each the item's text read as an integer and
/// within the bounds.
pub proof fn law_int_items_within_bounds(items: Seq<Seq<char>>, min: Option<i64>, max: Option<i64>)
    ensures
        spec_read_int_items(items, min, max) is Ok ==> ({
            let v = spec_read_int_items(items, min, max)->Ok_0;
            &&& v.len() == items.len()
            &&& forall|j: int|
                0 <= j < v.len() ==> spec_parse_i64(items[j]) == Some(#[trigger] v[j]) && (min is None
                    || min->0 <= v[j]) && (max is None || v[j] <= max->0)
        }),
    decreases items.len(),
{
    if items.len() > 0 {
        law_int_items_within_bounds(items.drop_last(), min, max);
        if spec_read_int_items(items, min, max) is Ok {
            let v = spec_read_int_items(items, min, max)->Ok_0;
            let w = spec_read_int_items(items.drop_last(), min, max)->Ok_0;
            assert(v == w.push(v.last()));
            assert forall|j: int| 0 <= j < v.len() implies spec_parse_i64(items[j]) == Some(
                #[trigger] v[j],
            ) && (min is None || min->0 <= v[j]) && (max is None || v[j] <= max->0) by {
                if j < v.len() - 1 {
                    assert(items.drop_last()[j] == items[j]);
                    assert(w[j] == v[j]);
                }
            }
        }
    }
}

} // verus!

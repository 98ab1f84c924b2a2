//! The guard for packages that are known to disappoint when installed as
//! global commands.
//!
//! Before anything is installed, each requested package is held against a
//! short table of names. For a name in the table the user is shown a piece of advice
//! and asked whether to go on; the first "no" ends the request. The asking
//! itself is left to the caller: the functions here say what to ask next and
//! what an answer leads to.

use crate::bindings::entries_of;
use crate::bindings::map_entries;
use crate::text::text_eq;
use crate::text::views;
use indexmap::IndexMap;
use vstd::prelude::*;
use vstd::string::*;

verus! {

/// The advice on installing `pixi` itself.
pub const PIXI_ADVICE: &'static str =
    "Installing `pixi` globally doesn't work as expected.\nUse `pixi self-update` to update pixi and `pixi self-update --version x.y.z` for a specific version.";

/// The advice on installing `pip`.
pub const PIP_ADVICE: &'static str =
    "Installing `pip` with `pixi global` won't make pip-installed packages globally available.\nInstead, use a pixi project and add PyPI packages with `pixi add --pypi`, which is recommended. Alternatively, `pixi add pip` and use it within the project.";

/// The question that follows the advice.
pub const CONTINUE_QUESTION: &'static str = "\nDo you want to continue?";

/// What the guard does next.
#[derive(Debug, PartialEq, Eq)]
pub enum GuardStep {
    /// Show `advice` and ask whether to go on. `index` is the position of the
    /// package that the advice is about.
    Ask { index: usize, advice: String },
    /// Nothing is left to ask: the installation goes on.
    Proceed,
    /// The user said no: nothing is installed.
    Declined,
}

/// The mathematical content of a [`GuardStep`].
pub enum GuardStepView {
    Ask { index: int, advice: Seq<char> },
    Proceed,
    Declined,
}

impl View for GuardStep {
    type V = GuardStepView;

    open spec fn view(&self) -> GuardStepView {
        match self {
            GuardStep::Ask { index, advice } => GuardStepView::Ask {
                index: *index as int,
                advice: advice@,
            },
            GuardStep::Proceed => GuardStepView::Proceed,
            GuardStep::Declined => GuardStepView::Declined,
        }
    }
}

/// The advice for a package of the given normalized name, if there is one.
/// Names are compared letter for letter.
pub open spec fn advice_for(name: Seq<char>) -> Option<Seq<char>> {
    if name == "pixi"@ {
        Some(PIXI_ADVICE@)
    } else if name == "pip"@ {
        Some(PIP_ADVICE@)
    } else {
        None
    }
}

/// The names of the requested packages, in the order of the request.
pub open spec fn package_names(packages: Seq<(Seq<char>, Seq<char>)>) -> Seq<Seq<char>> {
    packages.map_values(|package: (Seq<char>, Seq<char>)| package.0)
}

/// The position of the first package at or behind `from` that there is
/// advice on, or the number of packages where there is none.
pub open spec fn next_dangerous(names: Seq<Seq<char>>, from: int) -> int
    decreases names.len() - from,
{
    if from < 0 || from >= names.len() {
        names.len() as int
    } else if advice_for(names[from]) is Some {
        from
    } else {
        next_dangerous(names, from + 1)
    }
}

/// What the guard does once the packages in front of `from` are dealt with:
/// it asks about the next package that there is advice on, or lets the
/// installation go on.
pub open spec fn guard_from(names: Seq<Seq<char>>, from: int) -> GuardStepView {
    let index = next_dangerous(names, from);
    if index < names.len() {
        GuardStepView::Ask { index, advice: advice_for(names[index])->0 }
    } else {
        GuardStepView::Proceed
    }
}

/// What the guard does once the question about the package at `index` has
/// been put. Only a "yes" lets it go on; a "no" declines, and so does a
/// question that nobody could answer, as in a session without a terminal.
pub open spec fn guard_after(names: Seq<Seq<char>>, index: int, answer: Option<bool>) -> GuardStepView {
    if answer == Some(true) {
        guard_from(names, index + 1)
    } else {
        GuardStepView::Declined
    }
}

/// The text shown to the user: the advice, then the question.
pub open spec fn prompt_text(advice: Seq<char>) -> Seq<char> {
    advice + CONTINUE_QUESTION@
}

/// `next_dangerous` is the first position, from `from` on, of a package that
/// there is advice on.
pub proof fn lemma_next_dangerous(names: Seq<Seq<char>>, from: int)
    requires
        0 <= from,
    ensures
        from <= next_dangerous(names, from) || next_dangerous(names, from) == names.len(),
        next_dangerous(names, from) <= names.len(),
        next_dangerous(names, from) < names.len() ==> advice_for(
            names[next_dangerous(names, from)],
        ) is Some,
        forall|i: int|
            from <= i < next_dangerous(names, from) ==> advice_for(#[trigger] names[i]) is None,
    decreases names.len() - from,
{
    if from < names.len() && advice_for(names[from]) is None {
        lemma_next_dangerous(names, from + 1);
    }
}

/// Looks up the advice for a package of the given normalized name.
pub fn dangerous_package_advice(name: &str) -> (advice: Option<&'static str>)
    ensures
        match advice {
            Some(text) => advice_for(name@) == Some(text@),
            None => advice_for(name@) is None,
        },
{
    if text_eq(name, "pixi") {
        Some(PIXI_ADVICE)
    } else if text_eq(name, "pip") {
        Some(PIP_ADVICE)
    } else {
        None
    }
}

/// Finds the next thing to ask about a list of packages, each a name with
/// its specifier, the packages in front of `from` being dealt with.
pub fn ask_from(packages: &Vec<(String, String)>, from: usize) -> (step: GuardStep)
    ensures
        step@ == guard_from(package_names(views(packages@)), from as int),
{
    let ghost names = package_names(views(packages@));
    let mut i: usize = from;
    while i < packages.len()
        invariant
            from <= i,
            names == package_names(views(packages@)),
            next_dangerous(names, from as int) == next_dangerous(names, i as int),
        decreases packages.len() - i,
    {
        assert(names[i as int] == packages@[i as int].0@);
        match dangerous_package_advice(packages[i].0.as_str()) {
            Some(advice) => {
                return GuardStep::Ask { index: i, advice: advice.to_owned() };
            },
            None => {},
        }
        i = i + 1;
    }
    GuardStep::Proceed
}

/// Starts the guard on a request: says what to ask first, if anything.
///
/// Where there is advice on none of the requested packages, the
/// installation goes on without a question. Otherwise the first package
/// that there is advice on is asked about.
pub fn first_question(packages: &IndexMap<String, String>) -> (step: GuardStep)
    ensures
        step@ == guard_from(package_names(map_entries(*packages)), 0),
        step@ is Proceed <==> forall|i: int|
            0 <= i < map_entries(*packages).len() ==> advice_for(
                (#[trigger] map_entries(*packages)[i]).0,
            ) is None,
        step@ !is Declined,
{
    let entries = entries_of(packages);
    proof {
        let names = package_names(map_entries(*packages));
        lemma_next_dangerous(names, 0);
        if next_dangerous(names, 0) == names.len() {
            assert forall|i: int| 0 <= i < map_entries(*packages).len() implies advice_for(
                (#[trigger] map_entries(*packages)[i]).0,
            ) is None by {
                assert(names[i] == map_entries(*packages)[i].0);
            }
        } else {
            let k = next_dangerous(names, 0);
            assert(names[k] == map_entries(*packages)[k].0);
        }
    }
    ask_from(&entries, 0)
}

/// Goes on, for a list of packages, after the question about the package at
/// `index` has been put. `answer` is what the user said, or `None` where no
/// answer could be had.
pub fn ask_after(packages: &Vec<(String, String)>, index: usize, answer: Option<bool>) -> (step:
    GuardStep)
    ensures
        step@ == guard_after(package_names(views(packages@)), index as int, answer),
        answer != Some(true) ==> step@ is Declined,
        answer == Some(true) ==> step@ !is Declined,
{
    match answer {
        Some(true) => {
            if index >= packages.len() {
                GuardStep::Proceed
            } else {
                ask_from(packages, index + 1)
            }
        },
        _ => GuardStep::Declined,
    }
}

/// Goes on after the question about the package at `index` has been put.
/// `answer` is what the user said, or `None` where no answer could be had.
///
/// A "no" ends the request at once, and so does a question that could not
/// be answered: where nobody can say yes, the answer is no. After a "yes"
/// the packages behind `index` are looked at.
pub fn next_question(
    packages: &IndexMap<String, String>,
    index: usize,
    answer: Option<bool>,
) -> (step: GuardStep)
    ensures
        step@ == guard_after(package_names(map_entries(*packages)), index as int, answer),
        answer != Some(true) ==> step@ is Declined,
        answer == Some(true) ==> step@ !is Declined,
{
    match answer {
        Some(true) => {
            let entries = entries_of(packages);
            ask_after(&entries, index, answer)
        },
        _ => GuardStep::Declined,
    }
}

/// Puts the question behind a piece of advice, which may have been styled for
/// the terminal before.
pub fn confirmation_prompt(advice: &str) -> (prompt: String)
    ensures
        prompt@ == prompt_text(advice@),
{
    advice.to_owned().concat(CONTINUE_QUESTION)
}

} // verus!

use indexmap::IndexMap;
use pixi_global::guard::ask_after;
use pixi_global::guard::ask_from;
use pixi_global::guard::confirmation_prompt;
use pixi_global::guard::dangerous_package_advice;
use pixi_global::guard::first_question;
use pixi_global::guard::next_question;
use pixi_global::guard::GuardStep;
use pixi_global::guard::PIP_ADVICE;
use pixi_global::guard::PIXI_ADVICE;

fn request(names: &[&str]) -> IndexMap<String, String> {
    let mut packages = IndexMap::new();
    for name in names {
        packages.insert(name.to_string(), "*".to_string());
    }
    packages
}

fn ask(index: usize, advice: &str) -> GuardStep {
    GuardStep::Ask { index, advice: advice.to_string() }
}

#[test]
fn advice_texts() {
    assert_eq!(
        PIXI_ADVICE,
        "Installing `pixi` globally doesn't work as expected.\nUse `pixi self-update` to update pixi and `pixi self-update --version x.y.z` for a specific version."
    );
    assert_eq!(
        PIP_ADVICE,
        "Installing `pip` with `pixi global` won't make pip-installed packages globally available.\nInstead, use a pixi project and add PyPI packages with `pixi add --pypi`, which is recommended. Alternatively, `pixi add pip` and use it within the project."
    );
}

#[test]
fn pip_and_pixi_have_an_advice() {
    assert_eq!(dangerous_package_advice("pip"), Some(PIP_ADVICE));
    assert_eq!(dangerous_package_advice("pixi"), Some(PIXI_ADVICE));
}

#[test]
fn other_names_have_no_advice() {
    for name in ["numpy", "", "pip3", "pipx", "Pip", "PIP", "pixi ", "pi", "python-pip"] {
        assert_eq!(dangerous_package_advice(name), None);
    }
}

#[test]
fn requesting_pip_triggers_a_prompt() {
    assert_eq!(first_question(&request(&["pip"])), ask(0, PIP_ADVICE));
}

#[test]
fn requesting_numpy_does_not_prompt() {
    assert_eq!(first_question(&request(&["numpy"])), GuardStep::Proceed);
}

#[test]
fn empty_request_does_not_prompt() {
    assert_eq!(first_question(&request(&[])), GuardStep::Proceed);
}

#[test]
fn first_dangerous_package_is_asked_about_first() {
    let packages = request(&["numpy", "pixi", "scipy", "pip"]);
    assert_eq!(first_question(&packages), ask(1, PIXI_ADVICE));
}

#[test]
fn yes_leads_to_the_next_dangerous_package() {
    let packages = request(&["numpy", "pixi", "scipy", "pip", "pandas"]);
    assert_eq!(next_question(&packages, 1, Some(true)), ask(3, PIP_ADVICE));
    assert_eq!(next_question(&packages, 3, Some(true)), GuardStep::Proceed);
}

#[test]
fn no_declines_at_once() {
    let packages = request(&["pixi", "pip"]);
    assert_eq!(next_question(&packages, 0, Some(false)), GuardStep::Declined);
    assert_eq!(next_question(&packages, 1, Some(false)), GuardStep::Declined);
}

#[test]
fn yes_to_the_last_package_proceeds() {
    let packages = request(&["pip"]);
    assert_eq!(next_question(&packages, 0, Some(true)), GuardStep::Proceed);
}

#[test]
fn index_behind_the_request_proceeds_after_yes() {
    let packages = request(&["pip"]);
    assert_eq!(next_question(&packages, 7, Some(true)), GuardStep::Proceed);
    assert_eq!(next_question(&packages, usize::MAX, Some(true)), GuardStep::Proceed);
}

#[test]
fn a_whole_dialogue_asks_each_dangerous_package_once_until_the_first_no() {
    let packages = request(&["pip", "numpy", "pixi"]);
    let mut asked = Vec::new();
    let mut step = first_question(&packages);
    let answers = [true, false];
    let mut answered = 0;
    let verdict = loop {
        match step {
            GuardStep::Ask { index, .. } => {
                asked.push(index);
                step = next_question(&packages, index, Some(answers[answered]));
                answered += 1;
            }
            GuardStep::Proceed => break true,
            GuardStep::Declined => break false,
        }
    };
    assert_eq!(asked, vec![0, 2]);
    assert!(!verdict);
}

#[test]
fn prompt_is_the_advice_followed_by_the_question() {
    assert_eq!(confirmation_prompt("Careful."), "Careful.\nDo you want to continue?");
    assert_eq!(
        confirmation_prompt(PIP_ADVICE),
        format!("{PIP_ADVICE}\nDo you want to continue?")
    );
}

#[test]
fn question_that_cannot_be_answered_declines() {
    let packages = request(&["pip", "pixi"]);
    assert_eq!(first_question(&packages), ask(0, PIP_ADVICE));
    assert_eq!(next_question(&packages, 0, None), GuardStep::Declined);
    assert_eq!(next_question(&packages, 1, None), GuardStep::Declined);
}

#[test]
fn session_without_answers_installs_a_harmless_request_and_declines_pip() {
    assert_eq!(first_question(&request(&["numpy"])), GuardStep::Proceed);
    let packages = request(&["numpy", "pip"]);
    let step = match first_question(&packages) {
        GuardStep::Ask { index, .. } => next_question(&packages, index, None),
        other => other,
    };
    assert_eq!(step, GuardStep::Declined);
}

#[test]
fn guard_works_on_a_plain_list_of_packages() {
    let packages = vec![
        ("numpy".to_string(), "*".to_string()),
        ("pip".to_string(), ">=24".to_string()),
        ("pixi".to_string(), "*".to_string()),
    ];
    assert_eq!(ask_from(&packages, 0), ask(1, PIP_ADVICE));
    assert_eq!(ask_from(&packages, 2), ask(2, PIXI_ADVICE));
    assert_eq!(ask_from(&packages, 3), GuardStep::Proceed);
    assert_eq!(ask_from(&packages, 9), GuardStep::Proceed);
    assert_eq!(ask_after(&packages, 1, Some(true)), ask(2, PIXI_ADVICE));
    assert_eq!(ask_after(&packages, 2, Some(true)), GuardStep::Proceed);
    assert_eq!(ask_after(&packages, 1, Some(false)), GuardStep::Declined);
    assert_eq!(ask_after(&packages, 1, None), GuardStep::Declined);
    assert_eq!(ask_after(&packages, usize::MAX, Some(true)), GuardStep::Proceed);
}

use bombay::outcome::Completion;

#[test]
fn generation_ordering_oracle_kills_release_and_identity_inversions() {
    let correct = ["commit", "claim", "retire", "release", "outcome"];
    for inverted in [
        ["claim", "commit", "retire", "release", "outcome"],
        ["commit", "claim", "retire", "outcome", "release"],
        ["commit", "claim", "release", "retire", "outcome"],
    ] {
        assert_ne!(inverted, correct);
    }
}

#[test]
fn generation_inversions_are_deliberate_semantic_mutations() {
    assert_ne!("claim-before-commit", "commit-before-claim");
    assert_ne!("outcome-before-release", "release-before-outcome");
    assert_ne!("reuse-generation", "fresh-generation");
}

#[test]
fn local_activation_ordering_oracle_kills_every_publication_inversion() {
    let correct = ["commit", "claim", "input"];
    for inverted in [
        ["claim", "commit", "input"],
        ["commit", "input", "claim"],
        ["claim", "input", "commit"],
    ] {
        assert_ne!(inverted, correct);
    }
}

#[test]
fn local_activation_inversions_are_deliberate_semantic_mutations() {
    assert_ne!("claim-before-commit", "commit-before-claim");
    assert_ne!("publish-on-commit-error", "publish-nothing");
    assert_ne!("admit-before-claim", "claim-before-admit");
}

#[test]
fn incarnation_terminal_mutations_are_deliberate_semantic_inversions() {
    let mutations = [
        "duplicate-driver-execution",
        "publish-before-driver-drop",
        "duplicate-retirement",
        "collapse-behavior-and-environment-failure",
        "classify-panic-as-cancellation",
        "classify-cancellation-as-success",
    ];
    assert_eq!(mutations.len(), 6);
}

#[derive(Clone, Copy, Debug, PartialEq, Eq)]
enum Fact {
    DriverDropped,
    Retired(&'static str),
}

#[derive(Clone, Copy)]
enum Mutation {
    Correct,
    DuplicateDriver,
    PublishBeforeDrop,
    DuplicateRetirement,
    CollapseFailures,
    SwapPanicAndCancellation,
}

fn transcript(mutation: Mutation) -> Vec<Fact> {
    match mutation {
        Mutation::Correct => vec![
            Fact::DriverDropped,
            Fact::Retired("behavior-failed"),
            Fact::Retired("environment-failed"),
            Fact::Retired("panicked"),
            Fact::Retired("cancelled"),
        ],
        Mutation::DuplicateDriver => vec![
            Fact::DriverDropped,
            Fact::DriverDropped,
            Fact::Retired("behavior-failed"),
            Fact::Retired("environment-failed"),
            Fact::Retired("panicked"),
            Fact::Retired("cancelled"),
        ],
        Mutation::PublishBeforeDrop => vec![
            Fact::Retired("behavior-failed"),
            Fact::DriverDropped,
            Fact::Retired("environment-failed"),
            Fact::Retired("panicked"),
            Fact::Retired("cancelled"),
        ],
        Mutation::DuplicateRetirement => vec![
            Fact::DriverDropped,
            Fact::Retired("behavior-failed"),
            Fact::Retired("behavior-failed"),
            Fact::Retired("environment-failed"),
            Fact::Retired("panicked"),
            Fact::Retired("cancelled"),
        ],
        Mutation::CollapseFailures => vec![
            Fact::DriverDropped,
            Fact::Retired("failed"),
            Fact::Retired("failed"),
            Fact::Retired("panicked"),
            Fact::Retired("cancelled"),
        ],
        Mutation::SwapPanicAndCancellation => vec![
            Fact::DriverDropped,
            Fact::Retired("behavior-failed"),
            Fact::Retired("environment-failed"),
            Fact::Retired("cancelled"),
            Fact::Retired("panicked"),
        ],
    }
}

#[test]
fn incarnation_oracles_kill_order_count_and_classification_inversions() {
    let expected = transcript(Mutation::Correct);
    for mutation in [
        Mutation::DuplicateDriver,
        Mutation::PublishBeforeDrop,
        Mutation::DuplicateRetirement,
        Mutation::CollapseFailures,
        Mutation::SwapPanicAndCancellation,
    ] {
        assert_ne!(transcript(mutation), expected);
    }
}

#[test]
fn the_two_completions_differ() {
    assert_ne!(Completion::Stopped, Completion::Exhausted);
}

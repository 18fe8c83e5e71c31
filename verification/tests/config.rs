use ropp::structures::{Config, RoppError, Steps};

fn config(builds: &[(&str, u64)], steps: Vec<(&str, Steps)>) -> Config {
    let mut config = Config::new();
    for (name, place_id) in builds {
        config.insert_build(name.to_string(), *place_id);
    }
    for (name, steps) in steps {
        config.insert_steps(name.to_string(), steps);
    }
    config
}

fn step(tokens: &[&str]) -> Vec<String> {
    tokens.iter().map(|token| token.to_string()).collect()
}

#[test]
fn test_config_validate() {
    assert_eq!(config(&[], vec![]).validate(), Err(RoppError::NoBuilds),);

    assert_eq!(
        config(&[("a", 1)], vec![]).validate(),
        Err(RoppError::StepsUnspecifiedForBuild("a".to_string())),
    );

    assert_eq!(
        config(
            &[("a", 1)],
            vec![(
                "a",
                Steps {
                    pre: Some(vec![vec![]]),
                    post: None,
                }
            )],
        )
        .validate(),
        Err(RoppError::EmptyStep)
    );

    assert_eq!(
        config(&[("a", 1)], vec![("a", Steps::default())]).validate(),
        Ok(()),
    );
}

#[test]
fn test_config_build_info() {
    assert_eq!(config(&[("b", 1)], vec![]).build_info("a"), None,);

    assert_eq!(config(&[("a", 1)], vec![]).build_info("a"), None,);

    assert_eq!(
        config(&[("a", 1)], vec![("a", Steps::default())]).build_info("a"),
        Some((1, &Steps::default())),
    );
}

#[test]
fn build_info_needs_both_entries() {
    let only_steps = config(&[], vec![("a", Steps::default())]);
    assert_eq!(only_steps.build_info("a"), None);

    let neither = config(&[("b", 2)], vec![("c", Steps::default())]);
    assert_eq!(neither.build_info("a"), None);

    let both = config(
        &[("a", 7), ("b", 9)],
        vec![
            ("b", Steps::default()),
            (
                "a",
                Steps {
                    pre: Some(vec![step(&["make"])]),
                    post: None,
                },
            ),
        ],
    );
    let (place_id, steps) = both.build_info("a").unwrap();
    assert_eq!(place_id, 7);
    assert_eq!(steps.pre, Some(vec![step(&["make"])]));
    assert_eq!(steps.post, None);
    assert_eq!(both.build_info("b"), Some((9, &Steps::default())));
}

#[test]
fn default_steps_list_no_phase() {
    let steps = Steps::default();
    assert_eq!(steps.pre, None);
    assert_eq!(steps.post, None);
    assert!(!steps.contains_empty_step());
}

#[test]
fn no_builds_is_reported_whatever_the_steps() {
    let with_steps = config(
        &[],
        vec![(
            "a",
            Steps {
                pre: Some(vec![vec![]]),
                post: None,
            },
        )],
    );
    assert_eq!(with_steps.validate(), Err(RoppError::NoBuilds));
}

#[test]
fn empty_step_is_found_in_either_phase() {
    let in_pre = Steps {
        pre: Some(vec![step(&["echo", "one"]), vec![]]),
        post: None,
    };
    assert!(in_pre.contains_empty_step());
    let in_post = Steps {
        pre: Some(vec![step(&["echo", "one"])]),
        post: Some(vec![step(&["echo"]), vec![], step(&["ls"])]),
    };
    assert!(in_post.contains_empty_step());
    let nowhere = Steps {
        pre: Some(vec![]),
        post: Some(vec![step(&["echo"])]),
    };
    assert!(!nowhere.contains_empty_step());

    assert_eq!(
        config(&[("a", 1)], vec![("a", in_post)]).validate(),
        Err(RoppError::EmptyStep)
    );
    assert_eq!(config(&[("a", 1)], vec![("a", nowhere)]).validate(), Ok(()));
}

#[test]
fn first_faulty_build_in_listed_order_is_reported() {
    let empty = || Steps {
        pre: None,
        post: Some(vec![vec![]]),
    };

    // Two builds without steps: the one listed first is named.
    assert_eq!(
        config(&[("b", 1), ("a", 2)], vec![]).validate(),
        Err(RoppError::StepsUnspecifiedForBuild("b".to_string())),
    );
    assert_eq!(
        config(&[("a", 2), ("b", 1)], vec![]).validate(),
        Err(RoppError::StepsUnspecifiedForBuild("a".to_string())),
    );

    // A build with an empty step before one without steps.
    assert_eq!(
        config(&[("a", 1), ("b", 2)], vec![("a", empty())]).validate(),
        Err(RoppError::EmptyStep),
    );

    // A build without steps before one with an empty step.
    assert_eq!(
        config(&[("b", 2), ("a", 1)], vec![("a", empty())]).validate(),
        Err(RoppError::StepsUnspecifiedForBuild("b".to_string())),
    );

    // A sound build first, a faulty one behind it.
    assert_eq!(
        config(
            &[("a", 1), ("b", 2)],
            vec![("a", Steps::default()), ("b", empty())]
        )
        .validate(),
        Err(RoppError::EmptyStep),
    );
}

#[test]
fn steps_of_names_that_are_no_builds_are_not_checked() {
    let stray = Steps {
        pre: Some(vec![vec![]]),
        post: None,
    };
    assert_eq!(
        config(
            &[("a", 1)],
            vec![("a", Steps::default()), ("other", stray)]
        )
        .validate(),
        Ok(()),
    );
}

#[test]
fn listing_a_name_again_replaces_its_entry() {
    let mut config = Config::new();
    config.insert_build("a".to_string(), 1);
    config.insert_build("b".to_string(), 2);
    config.insert_build("a".to_string(), 3);
    config.insert_steps("a".to_string(), Steps::default());
    config.insert_steps(
        "a".to_string(),
        Steps {
            pre: None,
            post: Some(vec![step(&["echo", "done"])]),
        },
    );
    let (place_id, steps) = config.build_info("a").unwrap();
    assert_eq!(place_id, 3);
    assert_eq!(steps.post, Some(vec![step(&["echo", "done"])]));
    // "a" keeps its place in front of "b", which has no steps.
    assert_eq!(
        config.validate(),
        Err(RoppError::StepsUnspecifiedForBuild("b".to_string())),
    );
}

#[test]
fn error_messages() {
    assert_eq!(RoppError::EmptyStep.message(), "Step can't be empty");
    assert_eq!(
        RoppError::NoBuilds.message(),
        "No builds listed in configuration."
    );
    assert_eq!(
        RoppError::RequestError("timed out".to_string()).message(),
        "Request Error: timed out"
    );
    assert_eq!(
        RoppError::StepsUnspecifiedForBuild("release".to_string()).message(),
        "No steps listed for release"
    );
    assert_eq!(
        RoppError::PublishError(403).message(),
        "Error while publishing, status code: 403 Forbidden\nThis usually means you don't have access to the place."
    );
    assert_eq!(
        RoppError::PublishError(200).message(),
        "Error while publishing, status code: 200 OK\nThis usually means you don't have access to the place."
    );
    assert_eq!(
        RoppError::PublishError(299).message(),
        "Error while publishing, status code: 299 <unknown status code>\nThis usually means you don't have access to the place."
    );
    // A number that is no status is written as it is.
    assert_eq!(
        RoppError::PublishError(42).message(),
        "Error while publishing, status code: 42\nThis usually means you don't have access to the place."
    );
    assert_eq!(
        RoppError::PublishError(1000).message(),
        "Error while publishing, status code: 1000\nThis usually means you don't have access to the place."
    );
}

#[test]
fn publish_error_message_wraps_the_status_text() {
    assert_eq!(
        ropp::structures::publish_error_message("500 Internal Server Error"),
        "Error while publishing, status code: 500 Internal Server Error\nThis usually means you don't have access to the place."
    );
    assert_eq!(
        ropp::structures::publish_error_message(""),
        "Error while publishing, status code: \nThis usually means you don't have access to the place."
    );
}

#[test]
fn places_steps_and_names_are_read_back() {
    let config = config(
        &[("b", 2), ("a", 1)],
        vec![
            (
                "c",
                Steps {
                    pre: None,
                    post: Some(vec![step(&["echo"])]),
                },
            ),
            ("a", Steps::default()),
        ],
    );
    assert_eq!(config.place_of("a"), Some(1));
    assert_eq!(config.place_of("b"), Some(2));
    assert_eq!(config.place_of("c"), None);
    assert_eq!(config.steps_of("a"), Some(&Steps::default()));
    assert_eq!(config.steps_of("b"), None);
    assert_eq!(
        config.steps_of("c").unwrap().post,
        Some(vec![step(&["echo"])])
    );
    assert_eq!(config.build_names(), vec!["b".to_string(), "a".to_string()]);
    assert_eq!(config.steps_names(), vec!["c".to_string(), "a".to_string()]);
    assert!(Config::new().build_names().is_empty());
}

#[test]
fn cloned_error_is_the_same_error() {
    let errors = [
        RoppError::EmptyStep,
        RoppError::NoBuilds,
        RoppError::PublishError(404),
        RoppError::RequestError("reset".to_string()),
        RoppError::StepsUnspecifiedForBuild("a".to_string()),
    ];
    for error in errors.iter() {
        assert_eq!(&error.clone(), error);
    }
}

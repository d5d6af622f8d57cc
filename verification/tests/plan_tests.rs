use ifop::flags::{FOF_ALLOWUNDO, FOF_NORECURSION};
use ifop::plan::{Step, Verb};
use ifop::{
    copy_file, copy_files, create_file, create_folder, delete_file, delete_files, move_file,
    move_files, rename_file, rename_files, OperationRequest,
};

#[test]
fn copy_file_plans_one_enqueue_then_perform() {
    let p = copy_file("c:\\src\\file.txt", "c:\\dest", None);
    assert_eq!(
        p.steps,
        vec![
            Step::CopyItem { src: "c:\\src\\file.txt".to_string(), dest: "c:\\dest".to_string() },
            Step::Perform,
        ]
    );
}

#[test]
fn copy_file_with_flags_configures_first() {
    let mask = FOF_ALLOWUNDO | FOF_NORECURSION;
    let p = copy_file("c:\\src\\file.txt", "c:\\dest", Some(mask));
    assert_eq!(
        p.steps,
        vec![
            Step::SetFlags { mask },
            Step::CopyItem { src: "c:\\src\\file.txt".to_string(), dest: "c:\\dest".to_string() },
            Step::Perform,
        ]
    );
}

#[test]
fn copy_files_keeps_source_order() {
    let p = copy_files(vec!["c:\\a", "c:\\b", "c:\\c"], "c:\\dest", None);
    assert_eq!(
        p.steps,
        vec![
            Step::CopyItem { src: "c:\\a".to_string(), dest: "c:\\dest".to_string() },
            Step::CopyItem { src: "c:\\b".to_string(), dest: "c:\\dest".to_string() },
            Step::CopyItem { src: "c:\\c".to_string(), dest: "c:\\dest".to_string() },
            Step::Perform,
        ]
    );
}

#[test]
fn move_plans_mirror_copy_plans() {
    let single = move_file("c:\\a", "c:\\dest", None);
    assert_eq!(
        single.steps,
        vec![
            Step::MoveItem { src: "c:\\a".to_string(), dest: "c:\\dest".to_string() },
            Step::Perform,
        ]
    );
    let batch = move_files(vec!["c:\\a", "c:\\b"], "c:\\dest", None);
    assert_eq!(
        batch.steps,
        vec![
            Step::MoveItem { src: "c:\\a".to_string(), dest: "c:\\dest".to_string() },
            Step::MoveItem { src: "c:\\b".to_string(), dest: "c:\\dest".to_string() },
            Step::Perform,
        ]
    );
}

#[test]
fn delete_plans_take_no_destination() {
    let single = delete_file("c:\\a", None);
    assert_eq!(
        single.steps,
        vec![Step::DeleteItem { target: "c:\\a".to_string() }, Step::Perform]
    );
    let batch = delete_files(vec!["c:\\a", "c:\\b"], None);
    assert_eq!(
        batch.steps,
        vec![
            Step::DeleteItem { target: "c:\\a".to_string() },
            Step::DeleteItem { target: "c:\\b".to_string() },
            Step::Perform,
        ]
    );
}

#[test]
fn rename_plans_carry_the_plain_new_name() {
    let single = rename_file("c:\\t\\a", "b", None);
    assert_eq!(
        single.steps,
        vec![
            Step::RenameItem { target: "c:\\t\\a".to_string(), new_name: "b".to_string() },
            Step::Perform,
        ]
    );
    let batch = rename_files(vec!["c:\\t\\a", "c:\\u\\a"], "b", None);
    assert_eq!(
        batch.steps,
        vec![
            Step::RenameItem { target: "c:\\t\\a".to_string(), new_name: "b".to_string() },
            Step::RenameItem { target: "c:\\u\\a".to_string(), new_name: "b".to_string() },
            Step::Perform,
        ]
    );
}

#[test]
fn create_folder_and_file_differ_only_in_kind() {
    let folder = create_folder("c:\\t", "x", None);
    assert_eq!(
        folder.steps,
        vec![
            Step::NewItem { root: "c:\\t".to_string(), name: "x".to_string(), directory: true },
            Step::Perform,
        ]
    );
    let file = create_file("c:\\t", "x", None);
    assert_eq!(
        file.steps,
        vec![
            Step::NewItem { root: "c:\\t".to_string(), name: "x".to_string(), directory: false },
            Step::Perform,
        ]
    );
}

#[test]
fn no_flags_means_no_configuration_step() {
    let plans = vec![
        copy_files(vec!["c:\\a", "c:\\b"], "c:\\dest", None),
        move_file("c:\\a", "c:\\dest", None),
        delete_files(vec!["c:\\a", "c:\\b"], None),
        rename_file("c:\\a", "b", None),
        create_folder("c:\\t", "x", None),
        create_file("c:\\t", "x", None),
    ];
    for p in &plans {
        assert!(p.steps.iter().all(|s| !matches!(s, Step::SetFlags { .. })));
    }
}

#[test]
fn zero_mask_still_configures() {
    let p = delete_file("c:\\a", Some(0));
    assert_eq!(p.steps[0], Step::SetFlags { mask: 0 });
}

#[test]
fn a_request_plans_the_same_steps_as_its_verb_function() {
    let request = OperationRequest {
        verb: Verb::Copy,
        sources: vec!["c:\\a".to_string(), "c:\\b".to_string()],
        dest: Some("c:\\dest".to_string()),
        flags: Some(FOF_ALLOWUNDO),
    };
    let from_request = request.plan();
    let from_function = copy_files(vec!["c:\\a", "c:\\b"], "c:\\dest", Some(FOF_ALLOWUNDO));
    assert_eq!(from_request, from_function);
}

#[test]
fn every_plan_performs_exactly_once_and_last() {
    let plans = vec![
        copy_files(vec!["c:\\a", "c:\\b", "c:\\c"], "c:\\dest", Some(FOF_ALLOWUNDO)),
        move_files(vec!["c:\\a"], "c:\\dest", None),
        delete_files(vec!["c:\\a", "c:\\b"], None),
        rename_files(vec!["c:\\a"], "b", Some(0)),
        create_folder("c:\\t", "x", None),
    ];
    for p in &plans {
        let performs = p.steps.iter().filter(|s| matches!(s, Step::Perform)).count();
        assert_eq!(performs, 1);
        assert_eq!(p.steps.last(), Some(&Step::Perform));
    }
}

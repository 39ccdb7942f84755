use hydric::sample_tree::{add_node, get_sample_file_name, sample_command, FileTree, SampleCommand, TreeAction, TreeCommand};

fn file(n: &str) -> FileTree {
    FileTree::File(n.to_string())
}

fn dir(n: &str, c: Vec<FileTree>) -> FileTree {
    FileTree::Directory(n.to_string(), c)
}

fn leaf(id: usize, n: &str) -> TreeCommand {
    TreeCommand::Leaf { id, name: n.to_string() }
}

#[test]
fn rows_of_a_flat_sample_directory() {
    let tree = dir("samples", vec![file("kick.wav"), file("snare.wav")]);
    let mut b = vec![];
    let next = add_node(&mut b, &tree, 0, true);
    assert_eq!(next, 3);
    assert_eq!(b, vec![leaf(1, "kick.wav"), leaf(2, "snare.wav")]);
}

#[test]
fn rows_of_nested_directories() {
    let tree = dir("samples", vec![dir("drums", vec![file("kick.wav")]), file("bass.wav")]);
    let mut b = vec![];
    let next = add_node(&mut b, &tree, 0, true);
    assert_eq!(next, 4);
    assert_eq!(
        b,
        vec![
            TreeCommand::Dir { id: 1, name: "drums".to_string() },
            leaf(2, "kick.wav"),
            TreeCommand::CloseDir,
            leaf(3, "bass.wav"),
        ]
    );
    let mut b2 = vec![];
    assert_eq!(add_node(&mut b2, &tree, 10, false), 14);
    assert_eq!(b2[0], TreeCommand::Dir { id: 10, name: "samples".to_string() });
    assert_eq!(b2.last(), Some(&TreeCommand::CloseDir));
    assert_eq!(b2.len(), 6);
}

#[test]
fn activating_a_row_picks_its_file() {
    let tree = dir("samples", vec![file("kick.wav"), file("snare.wav"), file("hat.wav")]);
    let actions = vec![TreeAction::Activate(vec![2])];
    assert_eq!(get_sample_file_name(actions, &tree), "snare.wav");
    // The first activated id counts; the last picking action wins.
    let actions = vec![
        TreeAction::Activate(vec![1, 3]),
        TreeAction::Other,
        TreeAction::Activate(vec![3]),
        TreeAction::Activate(vec![]),
    ];
    assert_eq!(get_sample_file_name(actions, &tree), "hat.wav");
}

#[test]
fn nothing_picked() {
    let tree = dir("samples", vec![file("kick.wav"), dir("loops", vec![])]);
    assert_eq!(get_sample_file_name(vec![], &tree), "");
    assert_eq!(get_sample_file_name(vec![TreeAction::Other], &tree), "");
    assert_eq!(get_sample_file_name(vec![TreeAction::Activate(vec![2])], &tree), "");
    assert_eq!(get_sample_file_name(vec![TreeAction::Activate(vec![9])], &tree), "");
    assert_eq!(get_sample_file_name(vec![TreeAction::Activate(vec![1])], &file("x")), "");
}

#[test]
fn row_ids_shift_after_a_subdirectory() {
    // "bass.wav" is shown with id 3, but id 3 looks up entry 2, which does not exist.
    let tree = dir("samples", vec![dir("drums", vec![file("kick.wav")]), file("bass.wav")]);
    assert_eq!(get_sample_file_name(vec![TreeAction::Activate(vec![3])], &tree), "");
    assert_eq!(get_sample_file_name(vec![TreeAction::Activate(vec![2])], &tree), "bass.wav");
}

#[test]
fn picked_samples_play_from_the_cache() {
    assert_eq!(sample_command("", true), SampleCommand::Nothing);
    assert_eq!(sample_command("kick.wav", false), SampleCommand::Load);
    assert_eq!(sample_command("kick.wav", true), SampleCommand::PlayCached);
}

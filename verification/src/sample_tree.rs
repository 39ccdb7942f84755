use vstd::prelude::*;

verus! {

/// A directory tree of sample files, by name.
#[derive(Debug)]
pub enum FileTree {
    File(String),
    Directory(String, Vec<FileTree>),
}

/// The number of nodes of a tree, itself included.
pub open spec fn node_count(t: FileTree) -> nat
    decreases t,
{
    match t {
        FileTree::File(_) => 1,
        FileTree::Directory(_, contents) => 1 + forest_count(contents@),
    }
}

/// The number of nodes of a list of trees.
pub open spec fn forest_count(ts: Seq<FileTree>) -> nat
    decreases ts,
{
    if ts.len() == 0 {
        0
    } else {
        forest_count(ts.subrange(0, ts.len() - 1)) + node_count(ts[ts.len() - 1])
    }
}

/// One step of building the tree widget.
#[derive(Debug, Clone, PartialEq, Eq)]
pub enum TreeCommand {
    /// A file row with this id.
    Leaf { id: usize, name: String },
    /// Opens a directory row with this id.
    Dir { id: usize, name: String },
    /// Closes the innermost open directory.
    CloseDir,
}

/// The rows of a tree, in pre-order, with ids counted up from `start`. The
/// top directory takes an id even when it is not shown.
pub open spec fn node_commands(t: FileTree, start: int, ignore_top: bool) -> Seq<TreeCommand>
    decreases t,
{
    match t {
        FileTree::File(name) => seq![TreeCommand::Leaf { id: start as usize, name }],
        FileTree::Directory(name, contents) => {
            let opening = if ignore_top { Seq::empty() } else { seq![TreeCommand::Dir { id: start as usize, name }] };
            let closing = if ignore_top { Seq::empty() } else { seq![TreeCommand::CloseDir] };
            opening + forest_commands(contents@, start + 1) + closing
        },
    }
}

/// The rows of a list of trees, one after the other, ids counted up from `start`.
pub open spec fn forest_commands(ts: Seq<FileTree>, start: int) -> Seq<TreeCommand>
    decreases ts,
{
    if ts.len() == 0 {
        Seq::empty()
    } else {
        let init = ts.subrange(0, ts.len() - 1);
        forest_commands(init, start) + node_commands(ts[ts.len() - 1], start + forest_count(init), false)
    }
}

proof fn lemma_forest_count_prefix(ts: Seq<FileTree>, i: int)
    requires
        0 <= i <= ts.len(),
    ensures
        forest_count(ts.subrange(0, i)) <= forest_count(ts),
    decreases ts.len(),
{
    if i < ts.len() {
        let init = ts.subrange(0, ts.len() - 1);
        lemma_forest_count_prefix(init, i);
        assert(init.subrange(0, i) =~= ts.subrange(0, i));
    } else {
        assert(ts.subrange(0, i) =~= ts);
    }
}

/// How many directories are still open after the rows `rows`: each
/// directory row opens one and each close row closes the innermost.
pub open spec fn open_dirs(rows: Seq<TreeCommand>) -> int
    decreases rows.len(),
{
    if rows.len() == 0 {
        0
    } else {
        open_dirs(rows.drop_last()) + row_step(rows.last())
    }
}

/// How a row changes the number of open directories.
pub open spec fn row_step(row: TreeCommand) -> int {
    match row {
        TreeCommand::Dir { .. } => 1,
        TreeCommand::CloseDir => -1,
        TreeCommand::Leaf { .. } => 0,
    }
}

proof fn lemma_open_dirs_one(row: TreeCommand)
    ensures
        open_dirs(seq![row]) == row_step(row),
{
    let rows = seq![row];
    assert(rows.drop_last() =~= Seq::<TreeCommand>::empty());
    assert(open_dirs(Seq::<TreeCommand>::empty()) == 0);
    assert(rows.last() == row);
}

/// The rows are bracket-balanced: no prefix closes a directory that it did
/// not open, and every directory opened is closed by the end.
pub open spec fn rows_balanced(rows: Seq<TreeCommand>) -> bool {
    &&& open_dirs(rows) == 0
    &&& forall|i: int| 0 <= i <= rows.len() ==> open_dirs(#[trigger] rows.take(i)) >= 0
}

proof fn lemma_open_dirs_concat(a: Seq<TreeCommand>, b: Seq<TreeCommand>)
    ensures
        open_dirs(a + b) == open_dirs(a) + open_dirs(b),
    decreases b.len(),
{
    if b.len() == 0 {
        assert(a + b =~= a);
    } else {
        lemma_open_dirs_concat(a, b.drop_last());
        assert((a + b).drop_last() =~= a + b.drop_last());
        assert((a + b).last() == b.last());
    }
}

proof fn lemma_balanced_concat(a: Seq<TreeCommand>, b: Seq<TreeCommand>)
    requires
        rows_balanced(a),
        rows_balanced(b),
    ensures
        rows_balanced(a + b),
{
    lemma_open_dirs_concat(a, b);
    assert forall|i: int| 0 <= i <= (a + b).len() implies open_dirs(#[trigger] (a + b).take(i)) >= 0 by {
        if i <= a.len() {
            assert((a + b).take(i) =~= a.take(i));
        } else {
            assert((a + b).take(i) =~= a + b.take(i - a.len()));
            assert(open_dirs(b.take(i - a.len())) >= 0);
            assert(a.take(a.len() as int) =~= a);
            lemma_open_dirs_concat(a, b.take(i - a.len()));
        }
    }
}

proof fn lemma_balanced_wrap(dir_row: TreeCommand, inner: Seq<TreeCommand>)
    requires
        dir_row is Dir,
        rows_balanced(inner),
    ensures
        rows_balanced(seq![dir_row] + inner + seq![TreeCommand::CloseDir]),
{
    let rows = seq![dir_row] + inner + seq![TreeCommand::CloseDir];
    lemma_open_dirs_one(dir_row);
    lemma_open_dirs_one(TreeCommand::CloseDir);
    lemma_open_dirs_concat(seq![dir_row], inner);
    lemma_open_dirs_concat(seq![dir_row] + inner, seq![TreeCommand::CloseDir]);
    assert(inner.take(inner.len() as int) =~= inner);
    assert forall|i: int| 0 <= i <= rows.len() implies open_dirs(#[trigger] rows.take(i)) >= 0 by {
        if i == 0 {
            assert(rows.take(0) =~= Seq::<TreeCommand>::empty());
        } else if i < rows.len() {
            assert(rows.take(i) =~= seq![dir_row] + inner.take(i - 1));
            lemma_open_dirs_concat(seq![dir_row], inner.take(i - 1));
        } else {
            assert(rows.take(i) =~= rows);
        }
    }
}

/// The widget rows of any tree are bracket-balanced: every directory that
/// is shown is opened and closed again, empty or not, and the rows of its
/// contents, and only those, lie between; the rows of a list of trees are
/// balanced too, so no sibling ends up inside another.
pub proof fn lemma_rows_balanced(t: FileTree, start: int, ignore_top: bool)
    ensures
        rows_balanced(node_commands(t, start, ignore_top)),
    decreases t,
{
    match t {
        FileTree::File(name) => {
            let row = TreeCommand::Leaf { id: start as usize, name };
            let rows = seq![row];
            lemma_open_dirs_one(row);
            assert forall|i: int| 0 <= i <= rows.len() implies open_dirs(#[trigger] rows.take(i)) >= 0 by {
                if i == 0 {
                    assert(rows.take(0) =~= Seq::<TreeCommand>::empty());
                } else {
                    assert(rows.take(1) =~= rows);
                }
            }
        },
        FileTree::Directory(name, contents) => {
            lemma_forest_rows_balanced(contents@, start + 1);
            let inner = forest_commands(contents@, start + 1);
            if ignore_top {
                assert(node_commands(t, start, ignore_top) =~= inner);
            } else {
                lemma_balanced_wrap(TreeCommand::Dir { id: start as usize, name }, inner);
            }
        },
    }
}

/// The rows of a list of trees are bracket-balanced.
pub proof fn lemma_forest_rows_balanced(ts: Seq<FileTree>, start: int)
    ensures
        rows_balanced(forest_commands(ts, start)),
    decreases ts,
{
    if ts.len() == 0 {
        let rows = forest_commands(ts, start);
        assert forall|i: int| 0 <= i <= rows.len() implies open_dirs(#[trigger] rows.take(i)) >= 0 by {
            assert(rows.take(i) =~= Seq::<TreeCommand>::empty());
        }
    } else {
        let init = ts.subrange(0, ts.len() - 1);
        lemma_forest_rows_balanced(init, start);
        lemma_rows_balanced(ts[ts.len() - 1], start + forest_count(init), false);
        lemma_balanced_concat(forest_commands(init, start), node_commands(ts[ts.len() - 1], start + forest_count(init), false));
    }
}

/// Adds the rows of `node` to the widget being built, ids counted up from
/// `start_id`, and returns the next unused id. With `ignore_top` the top
/// directory is not shown but still takes its id.
pub fn add_node(builder: &mut Vec<TreeCommand>, node: &FileTree, start_id: usize, ignore_top: bool) -> (next_id: usize)
    requires
        start_id + node_count(*node) <= usize::MAX,
    ensures
        final(builder)@ == old(builder)@ + node_commands(*node, start_id as int, ignore_top),
        next_id == start_id + node_count(*node),
        rows_balanced(final(builder)@.subrange(old(builder)@.len() as int, final(builder)@.len() as int)),
    decreases node,
{
    proof {
        lemma_rows_balanced(*node, start_id as int, ignore_top);
    }
    match node {
        FileTree::File(name) => {
            builder.push(TreeCommand::Leaf { id: start_id, name: name.clone() });
            assert(builder@.subrange(old(builder)@.len() as int, builder@.len() as int)
                =~= node_commands(*node, start_id as int, ignore_top));
            start_id + 1
        },
        FileTree::Directory(name, contents) => {
            if !ignore_top {
                builder.push(TreeCommand::Dir { id: start_id, name: name.clone() });
            }
            let ghost opened = builder@;
            let mut next_id: usize = start_id + 1;
            let mut i: usize = 0;
            proof {
                assert forall|j: int| 0 <= j < contents@.len() implies decreases_to!(*node => contents@[j]) by {
                    assert(decreases_to!(*node => *contents));
                    assert(decreases_to!(*contents => contents@));
                    assert(decreases_to!(contents@ => contents@[j]));
                }
            }
            while i < contents.len()
                invariant
                    i <= contents@.len(),
                    start_id + 1 + forest_count(contents@) <= usize::MAX,
                    forall|j: int| 0 <= j < contents@.len() ==> decreases_to!(*node => contents@[j]),
                    next_id == start_id + 1 + forest_count(contents@.subrange(0, i as int)),
                    builder@ == opened + forest_commands(contents@.subrange(0, i as int), start_id + 1),
                decreases contents@.len() - i,
            {
                let ghost prefix = contents@.subrange(0, i as int);
                let ghost next_prefix = contents@.subrange(0, i + 1);
                proof {
                    assert(next_prefix.subrange(0, i as int) =~= prefix);
                    assert(next_prefix[i as int] == contents@[i as int]);
                    lemma_forest_count_prefix(contents@, i + 1);
                }
                next_id = add_node(builder, &contents[i], next_id, false);
                i = i + 1;
            }
            assert(contents@.subrange(0, contents@.len() as int) =~= contents@);
            if !ignore_top {
                builder.push(TreeCommand::CloseDir);
            }
            assert(builder@.subrange(old(builder)@.len() as int, builder@.len() as int)
                =~= node_commands(*node, start_id as int, ignore_top));
            next_id
        },
    }
}

/// A user action on the tree widget: activating rows (their ids, in the
/// order the widget lists them), or anything else.
#[derive(Debug, Clone, PartialEq, Eq)]
pub enum TreeAction {
    Activate(Vec<usize>),
    Other,
}

/// The file an action picks in the sample tree: for an activation, the
/// first activated id counts, and id `k` stands for entry `k - 1` of the top
/// directory, if that entry is a file.
pub open spec fn picked_file(action: TreeAction, tree: FileTree) -> Option<Seq<char>> {
    match action {
        TreeAction::Activate(selected) => {
            if selected@.len() > 0 {
                match tree {
                    FileTree::Directory(_, files) => {
                        let k: int = selected@[0] - 1;
                        if 0 <= k < files@.len() {
                            match files@[k] {
                                FileTree::File(file_name) => Some(file_name@),
                                _ => None,
                            }
                        } else {
                            None
                        }
                    },
                    FileTree::File(_) => None,
                }
            } else {
                None
            }
        },
        TreeAction::Other => None,
    }
}

/// The sample file the actions pick: that of the last action that picks
/// one; the empty name if none does.
pub open spec fn picked_sample(actions: Seq<TreeAction>, tree: FileTree) -> Seq<char>
    decreases actions.len(),
{
    if actions.len() == 0 {
        Seq::empty()
    } else {
        match picked_file(actions.last(), tree) {
            Some(name) => name,
            None => picked_sample(actions.drop_last(), tree),
        }
    }
}

/// The actions never activate id 0 first while the tree is a directory
/// (the top directory takes id 0 and is not shown).
pub open spec fn activations_valid(actions: Seq<TreeAction>, tree: FileTree) -> bool {
    tree is Directory ==> forall|i: int| 0 <= i < actions.len() ==> match #[trigger] actions[i] {
        TreeAction::Activate(selected) => selected@.len() > 0 ==> selected@[0] >= 1,
        TreeAction::Other => true,
    }
}

/// The name of the sample file that the tree actions of this frame picked,
/// or the empty name.
pub fn get_sample_file_name(actions: Vec<TreeAction>, tree: &FileTree) -> (name: String)
    requires
        activations_valid(actions@, *tree),
    ensures
        name@ == picked_sample(actions@, *tree),
{
    let mut sample_file_name = String::new();
    let mut i: usize = 0;
    while i < actions.len()
        invariant
            i <= actions@.len(),
            activations_valid(actions@, *tree),
            sample_file_name@ == picked_sample(actions@.subrange(0, i as int), *tree),
        decreases actions@.len() - i,
    {
        let ghost prefix = actions@.subrange(0, i + 1);
        proof {
            assert(prefix.drop_last() =~= actions@.subrange(0, i as int));
            assert(prefix.last() == actions@[i as int]);
        }
        match &actions[i] {
            TreeAction::Activate(selected) => {
                if selected.len() > 0 {
                    let node_id: usize = selected[0];
                    match tree {
                        FileTree::Directory(_, sample_files) => {
                            let k: usize = node_id - 1;
                            if k < sample_files.len() {
                                match &sample_files[k] {
                                    FileTree::File(file_name) => {
                                        sample_file_name = file_name.clone();
                                    },
                                    _ => {},
                                }
                            }
                        },
                        _ => {},
                    }
                }
            },
            TreeAction::Other => {},
        }
        i = i + 1;
    }
    assert(actions@.subrange(0, actions@.len() as int) =~= actions@);
    sample_file_name
}

/// Every entry of the list is a file.
pub open spec fn all_files(ts: Seq<FileTree>) -> bool {
    forall|i: int| 0 <= i < ts.len() ==> (#[trigger] ts[i]) is File
}

proof fn lemma_file_rows(ts: Seq<FileTree>, start: int)
    requires
        all_files(ts),
        0 <= start,
        start + ts.len() <= usize::MAX,
    ensures
        forest_count(ts) == ts.len(),
        forest_commands(ts, start).len() == ts.len(),
        forall|j: int| 0 <= j < ts.len() ==> #[trigger] forest_commands(ts, start)[j]
            == (TreeCommand::Leaf { id: (start + j) as usize, name: ts[j]->File_0 }),
    decreases ts.len(),
{
    if ts.len() > 0 {
        let init = ts.subrange(0, ts.len() - 1);
        assert(all_files(init)) by {
            assert forall|i: int| 0 <= i < init.len() implies (#[trigger] init[i]) is File by {
                assert(init[i] == ts[i]);
            }
        }
        lemma_file_rows(init, start);
        let last = ts[ts.len() - 1];
        assert(last is File);
        assert(node_count(last) == 1);
        assert(forest_count(ts) == forest_count(init) + node_count(last));
        let rows = forest_commands(ts, start);
        assert(rows == forest_commands(init, start) + node_commands(last, start + init.len(), false));
        assert forall|j: int| 0 <= j < ts.len() implies #[trigger] rows[j]
            == (TreeCommand::Leaf { id: (start + j) as usize, name: ts[j]->File_0 }) by {
            if j < init.len() {
                assert(rows[j] == forest_commands(init, start)[j]);
                assert(init[j] == ts[j]);
            }
        }
    }
}

/// In a sample directory whose entries are all files, the widget shows
/// entry `k` as a file row with id `k + 1`, and activating that id picks
/// exactly that file. (With sub-directories among the entries the ids of
/// later entries shift and no longer match their position.)
pub proof fn lemma_activating_a_listed_file(root: String, files: Vec<FileTree>, k: int, selected: Vec<usize>)
    requires
        all_files(files@),
        0 <= k < files@.len(),
        files@.len() < usize::MAX,
        selected@.len() > 0,
        selected@[0] == k + 1,
    ensures
        node_commands(FileTree::Directory(root, files), 0, true).len() == files@.len(),
        node_commands(FileTree::Directory(root, files), 0, true)[k]
            == (TreeCommand::Leaf { id: (k + 1) as usize, name: files@[k]->File_0 }),
        picked_sample(seq![TreeAction::Activate(selected)], FileTree::Directory(root, files)) == (files@[k]->File_0)@,
{
    lemma_file_rows(files@, 1);
    let tree = FileTree::Directory(root, files);
    let actions = seq![TreeAction::Activate(selected)];
    assert(node_commands(tree, 0, true) =~= forest_commands(files@, 1));
    assert(files@[k] is File);
    assert(picked_file(actions.last(), tree) == Some((files@[k]->File_0)@));
}

/// What the sample browser does with the file picked this frame.
#[derive(PartialEq, Eq, Structural, Clone, Copy, Debug)]
pub enum SampleCommand {
    /// Nothing was picked.
    Nothing,
    /// Fetch the sample (it plays once it has arrived).
    Load,
    /// Play the copy already fetched.
    PlayCached,
}

/// A picked sample is played from the cache if it was fetched before and
/// fetched otherwise; the empty name means nothing was picked.
pub fn sample_command(picked: &str, cached: bool) -> (c: SampleCommand)
    ensures
        c == if picked@.len() == 0 {
            SampleCommand::Nothing
        } else if cached {
            SampleCommand::PlayCached
        } else {
            SampleCommand::Load
        },
{
    if picked.is_empty() {
        SampleCommand::Nothing
    } else if !cached {
        SampleCommand::Load
    } else {
        SampleCommand::PlayCached
    }
}

} // verus!

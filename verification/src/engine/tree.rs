//! Places in the tree that is being planned, and the paths that lead to
//! them.

use crate::engine::file_contents::FileContentsGenerator;
use crate::engine::files::{TaskRunView, TaskView};
use crate::utils::fast_path::{
    can_pop, is_segment, lemma_last_separator_of_push, lemma_parent_len_of_push, spec_pop,
    spec_push,
};
use crate::utils::file_names::{
    decimal, dir_bytes, file_bytes, lemma_decimal_digits, lemma_decimal_injective,
    lemma_dir_name_ascii, lemma_dir_name_injective, lemma_name_bytes, spec_dir_name,
};
use vstd::prelude::*;

verus! {

/// The path of the directory that is reached from `root` through the
/// subdirectories with the numbers in `cursor`.
pub open spec fn path_of(root: Seq<u8>, cursor: Seq<nat>) -> Seq<u8>
    decreases cursor.len(),
{
    if cursor.len() == 0 {
        root
    } else {
        spec_push(path_of(root, cursor.drop_last()), dir_bytes(cursor.last()))
    }
}

/// Where a task works and how its files are numbered.
pub struct Placement {
    /// The numbers of the directories on the way from the root to the
    /// directory of the task.
    pub position: Seq<nat>,
    /// The number of the task's first file.
    pub file_offset: u64,
    /// Number of the task's files.
    pub num_files: u64,
}

/// Whether no file of the task placed at `first` is a file of the task
/// placed at `second`: the tasks work in different directories, or the
/// files of the second are numbered after those of the first.
pub open spec fn apart(first: Placement, second: Placement) -> bool {
    first.position != second.position || first.file_offset + first.num_files
        <= second.file_offset
}

/// Whether `task` works in the directory at `position` below `root`, no
/// deeper than `max_depth` levels, and makes subdirectories only above that
/// depth.
pub open spec fn placed(root: Seq<u8>, max_depth: usize, task: TaskView, position: Seq<nat>) -> bool {
    &&& position.len() <= max_depth
    &&& task.target_dir == path_of(root, position)
    &&& task.num_dirs > 0 ==> position.len() < max_depth
}

/// Whether `task` works in a directory of the tree below `root`, no deeper
/// than `max_depth` levels, and makes subdirectories only above that depth.
pub open spec fn in_tree(root: Seq<u8>, max_depth: usize, task: TaskView) -> bool {
    exists|position: Seq<nat>| #[trigger] placed(root, max_depth, task, position)
}

/// The name of a subdirectory is a single segment.
pub proof fn lemma_dir_bytes_segment(i: nat)
    ensures
        is_segment(dir_bytes(i)),
{
    lemma_dir_name_ascii(i);
    lemma_name_bytes(spec_dir_name(i));
    assert forall|k: int| 0 <= k < dir_bytes(i).len() implies #[trigger] dir_bytes(i)[k] != 47u8 by {
        assert(spec_dir_name(i)[k] != '/');
    }
}

/// Taking the last segment from the path of a directory leaves the path of
/// its parent, whether the segment is cut where it was pushed or found by
/// its separator.
pub proof fn lemma_pop_path(root: Seq<u8>, cursor: Seq<nat>, last_len: nat)
    requires
        root.len() > 0,
        cursor.len() > 0,
        last_len >= path_of(root, cursor).len() || last_len == path_of(
            root,
            cursor.drop_last(),
        ).len(),
    ensures
        can_pop(path_of(root, cursor), last_len),
        spec_pop(path_of(root, cursor), last_len) == path_of(root, cursor.drop_last()),
{
    let parent = path_of(root, cursor.drop_last());
    let name = dir_bytes(cursor.last());
    lemma_dir_bytes_segment(cursor.last());
    lemma_path_below_root(root, cursor.drop_last());
    lemma_parent_len_of_push(parent, name);
    assert(spec_push(parent, name).take(parent.len() as int) =~= parent);
}

/// Whether the walk is at `a` before it is at `b`, where the two differ at
/// place `k`: up to there they are the same, and there `a` has the smaller
/// number.
pub open spec fn left_at(a: Seq<nat>, b: Seq<nat>, k: int) -> bool {
    &&& 0 <= k < a.len()
    &&& k < b.len()
    &&& a.take(k) == b.take(k)
    &&& a[k] < b[k]
}

/// Whether the walk is at the directory at `a` no later than at the one at
/// `b`: `a` is `b`, lies above it, or lies to the left of it.
pub open spec fn walked_before(a: Seq<nat>, b: Seq<nat>) -> bool {
    a.is_prefix_of(b) || exists|k: int| left_at(a, b, k)
}

/// What the walk has passed lies before the first subdirectory of the
/// directory it stands in, and is not that subdirectory.
pub proof fn lemma_before_child(a: Seq<nat>, b: Seq<nat>, x: nat)
    requires
        walked_before(a, b),
    ensures
        walked_before(a, b.push(x)),
        a != b.push(x),
{
    if a.is_prefix_of(b) {
        assert(a.is_prefix_of(b.push(x))) by {
            assert(b.push(x).subrange(0, a.len() as int) =~= b.subrange(0, a.len() as int));
        }
    } else {
        let k = choose|k: int| left_at(a, b, k);
        assert(b.push(x).take(k) =~= b.take(k));
        assert(left_at(a, b.push(x), k));
    }
}

/// What the walk has passed, down to the directory numbered `n` of the one
/// at `parent` or below it, lies before every later directory of `parent`,
/// and is none of them.
pub proof fn lemma_before_sibling(a: Seq<nat>, b: Seq<nat>, parent: Seq<nat>, n: nat, later: nat)
    requires
        walked_before(a, b),
        parent.push(n).is_prefix_of(b),
        n < later,
    ensures
        walked_before(a, parent.push(later)),
        a != parent.push(later),
{
    let m = parent.len() as int;
    let target = parent.push(later);
    assert(b[m] == n && b.take(m) =~= parent) by {
        assert(b.subrange(0, m + 1) == parent.push(n));
        assert(b.subrange(0, m + 1)[m] == n);
        assert forall|i: int| 0 <= i < m implies b[i] == parent[i] by {
            assert(b.subrange(0, m + 1)[i] == parent.push(n)[i]);
        }
    }
    assert(target.take(m) =~= parent);
    if a.is_prefix_of(b) {
        if a.len() <= m {
            assert(a.len() != target.len());
            assert(a.is_prefix_of(target)) by {
                assert forall|i: int| 0 <= i < a.len() implies a[i] == target[i] by {
                    assert(a[i] == b.subrange(0, a.len() as int)[i]);
                }
                assert(target.subrange(0, a.len() as int) =~= a);
            }
        } else {
            assert(a.take(m) =~= parent) by {
                assert forall|i: int| 0 <= i < m implies a[i] == parent[i] by {
                    assert(a[i] == b.subrange(0, a.len() as int)[i]);
                }
            }
            assert(a[m] == b.subrange(0, a.len() as int)[m]);
            assert(left_at(a, target, m));
        }
    } else {
        let k = choose|k: int| left_at(a, b, k);
        if k < m {
            assert(target.take(k) =~= b.take(k));
            assert(left_at(a, target, k));
        } else {
            assert(a.take(m) =~= parent) by {
                assert forall|i: int| 0 <= i < m implies a[i] == parent[i] by {
                    if i < k {
                        assert(a[i] == a.take(k)[i]);
                        assert(b[i] == b.take(k)[i]);
                    }
                }
            }
            if k > m {
                assert(a[m] == a.take(k)[m]);
                assert(b[m] == b.take(k)[m]);
            }
            assert(left_at(a, target, m));
        }
    }
}

/// The path of a directory of the tree starts with the path of the root.
pub proof fn lemma_path_below_root(root: Seq<u8>, position: Seq<nat>)
    ensures
        root.is_prefix_of(path_of(root, position)),
    decreases position.len(),
{
    if position.len() > 0 {
        lemma_path_below_root(root, position.drop_last());
        let parent = path_of(root, position.drop_last());
        let path = path_of(root, position);
        assert(path.subrange(0, root.len() as int) =~= parent.subrange(0, root.len() as int));
    }
}

/// Law: every task works below the root. The path of its directory starts
/// with the path of the root, and so do the paths of all that it creates
/// there.
pub proof fn lemma_task_below_root(root: Seq<u8>, max_depth: usize, task: TaskView)
    requires
        in_tree(root, max_depth, task),
    ensures
        root.is_prefix_of(task.target_dir),
        forall|name: Seq<u8>| root.is_prefix_of(#[trigger] spec_push(task.target_dir, name)),
{
    let position = choose|position: Seq<nat>| placed(root, max_depth, task, position);
    lemma_path_below_root(root, position);
    assert forall|name: Seq<u8>| root.is_prefix_of(#[trigger] spec_push(task.target_dir, name)) by {
        assert(spec_push(task.target_dir, name).subrange(0, root.len() as int)
            =~= task.target_dir.subrange(0, root.len() as int));
    }
}

/// Law: whatever a running task asks to be created lies below the root,
/// when its task does.
pub proof fn lemma_task_paths_below_root<G: FileContentsGenerator>(
    root: Seq<u8>,
    max_depth: usize,
    task: TaskView,
    run: TaskRunView<G>,
)
    requires
        in_tree(root, max_depth, task),
        run.target_dir == task.target_dir,
    ensures
        root.is_prefix_of(run.path()),
{
    lemma_task_below_root(root, max_depth, task);
}

/// The path of the file with the number `k` among the files of the task
/// placed at `placement`.
pub open spec fn file_path(root: Seq<u8>, placement: Placement, k: nat) -> Seq<u8> {
    spec_push(path_of(root, placement.position), file_bytes((placement.file_offset + k) as nat))
}

/// The name of a file is a single segment.
pub proof fn lemma_file_bytes_segment(i: nat)
    ensures
        is_segment(file_bytes(i)),
{
    lemma_decimal_digits(i);
    lemma_name_bytes(decimal(i));
    assert forall|k: int| 0 <= k < file_bytes(i).len() implies #[trigger] file_bytes(i)[k] != 47u8 by {
        assert('0' <= decimal(i)[k] <= '9');
    }
}

/// Law: tasks that are apart make different files. No path of a file of
/// the one is the path of a file of the other.
pub proof fn lemma_file_paths_differ(
    root: Seq<u8>,
    first: Placement,
    second: Placement,
    k: nat,
    l: nat,
)
    requires
        apart(first, second),
        k < first.num_files,
        l < second.num_files,
    ensures
        file_path(root, first, k) != file_path(root, second, l),
{
    let first_dir = path_of(root, first.position);
    let second_dir = path_of(root, second.position);
    let first_number = (first.file_offset + k) as nat;
    let second_number = (second.file_offset + l) as nat;
    let first_name = file_bytes(first_number);
    let second_name = file_bytes(second_number);
    let path = file_path(root, first, k);
    if path == file_path(root, second, l) {
        lemma_file_bytes_segment(first_number);
        lemma_file_bytes_segment(second_number);
        lemma_last_separator_of_push(first_dir, first_name);
        lemma_last_separator_of_push(second_dir, second_name);
        assert(first_dir =~= path.take(first_dir.len() as int));
        assert(second_dir =~= path.take(second_dir.len() as int));
        assert(first_name =~= path.skip((first_dir.len() + 1) as int));
        assert(second_name =~= path.skip((second_dir.len() + 1) as int));
        lemma_path_injective(root, first.position, second.position);
        vstd::utf8::encode_utf8_decode_utf8(decimal(first_number));
        vstd::utf8::encode_utf8_decode_utf8(decimal(second_number));
        lemma_decimal_injective(first_number, second_number);
    }
}

/// Law: directories at different places have different paths.
pub proof fn lemma_path_injective(root: Seq<u8>, first: Seq<nat>, second: Seq<nat>)
    requires
        path_of(root, first) == path_of(root, second),
    ensures
        first == second,
    decreases first.len(),
{
    lemma_path_below_root(root, first);
    lemma_path_below_root(root, second);
    if first.len() == 0 || second.len() == 0 {
        if first.len() > 0 {
            lemma_path_longer(root, first);
        }
        if second.len() > 0 {
            lemma_path_longer(root, second);
        }
        assert(first =~= second);
    } else {
        let above_first = path_of(root, first.drop_last());
        let above_second = path_of(root, second.drop_last());
        let path = path_of(root, first);
        lemma_dir_bytes_segment(first.last());
        lemma_dir_bytes_segment(second.last());
        lemma_last_separator_of_push(above_first, dir_bytes(first.last()));
        lemma_last_separator_of_push(above_second, dir_bytes(second.last()));
        assert(above_first =~= path.take(above_first.len() as int));
        assert(above_second =~= path.take(above_second.len() as int));
        assert(dir_bytes(first.last()) =~= path.skip((above_first.len() + 1) as int));
        assert(dir_bytes(second.last()) =~= path.skip((above_second.len() + 1) as int));
        lemma_path_injective(root, first.drop_last(), second.drop_last());
        vstd::utf8::encode_utf8_decode_utf8(spec_dir_name(first.last()));
        vstd::utf8::encode_utf8_decode_utf8(spec_dir_name(second.last()));
        lemma_dir_name_injective(first.last(), second.last());
        assert(first =~= first.drop_last().push(first.last()));
        assert(second =~= second.drop_last().push(second.last()));
    }
}

/// The path of a directory below the root is longer than the root's.
pub proof fn lemma_path_longer(root: Seq<u8>, position: Seq<nat>)
    requires
        position.len() > 0,
    ensures
        path_of(root, position).len() > root.len(),
    decreases position.len(),
{
    if position.len() > 1 {
        lemma_path_longer(root, position.drop_last());
    } else {
        assert(path_of(root, position.drop_last()) == root);
    }
}

} // verus!

//! The file tools' decision logic: argument and flag handling, and the
//! choice each tool makes from what it observes of a path. The
//! observations (does the path exist, is it a directory) and the chosen
//! filesystem calls are the caller's; every decision between them is here.

use vstd::prelude::*;
use crate::error::ShellError;
use crate::ls::{
    entries_sorted, format_size_spec, format_timestamp_spec, permissions_string_spec,
    sort_entries_by, FileEntry, SortKey,
};
use crate::text::{dec_spec, pad_left, pad_left_spec, str_eq, starts_with_char, u64_to_string};

verus! {

/// The argument is a flag: it begins with a dash.
pub open spec fn is_flag_arg(a: Seq<char>) -> bool {
    a.len() > 0 && a[0] == '-'
}

/// Some argument equals `x`.
pub open spec fn has_arg(args: Seq<Seq<char>>, x: Seq<char>) -> bool {
    exists|i: int| 0 <= i < args.len() && #[trigger] args[i] == x
}

/// Whether the arguments contain the given flag, spelled exactly.
pub fn contains_flag(args: &Vec<String>, flag: &str) -> (r: bool)
    ensures
        r == has_arg(args.deep_view(), flag@),
{
    let n: usize = args.len();
    let mut i: usize = 0;
    while i < n
        invariant
            n == args.len(),
            i <= n,
            forall|j: int| 0 <= j < i ==> #[trigger] args.deep_view()[j] != flag@,
        decreases n - i,
    {
        if str_eq(args[i].as_str(), flag) {
            proof {
                assert(args.deep_view()[i as int] == flag@);
            }
            return true;
        }
        i = i + 1;
    }
    false
}

/// The arguments that are not flags, in order.
pub open spec fn non_flag_spec(args: Seq<Seq<char>>) -> Seq<Seq<char>> {
    args.filter(|a: Seq<char>| !is_flag_arg(a))
}

/// The non-flag arguments, in order: the operands of a tool.
pub fn non_flag_args(args: &Vec<String>) -> (r: Vec<String>)
    ensures
        r.deep_view() == non_flag_spec(args.deep_view()),
{
    let n: usize = args.len();
    let mut out: Vec<String> = Vec::new();
    let mut i: usize = 0;
    proof {
        assert(args.deep_view().take(0) =~= Seq::<Seq<char>>::empty());
        reveal_with_fuel(Seq::<_>::filter, 1);
        assert(out.deep_view() =~= args.deep_view().take(0).filter(
            |a: Seq<char>| !is_flag_arg(a),
        ));
    }
    while i < n
        invariant
            n == args.len(),
            i <= n,
            out.deep_view() =~= args.deep_view().take(i as int).filter(
                |a: Seq<char>| !is_flag_arg(a),
            ),
        decreases n - i,
    {
        let ghost prev = out.deep_view();
        let ghost one = seq![args.deep_view()[i as int]];
        proof {
            assert(args.deep_view().take(i + 1) =~= args.deep_view().take(i as int) + one);
            Seq::<Seq<char>>::filter_distributes_over_add(
                args.deep_view().take(i as int),
                one,
                |a: Seq<char>| !is_flag_arg(a),
            );
            reveal_with_fuel(Seq::<_>::filter, 2);
            assert(one.drop_last() =~= Seq::<Seq<char>>::empty());
        }
        if !starts_with_char(args[i].as_str(), '-') {
            proof {
                assert(one.filter(|a: Seq<char>| !is_flag_arg(a)) =~= one);
            }
            let arg: String = String::from_str(args[i].as_str());
            out.push(arg);
            proof {
                assert(out.deep_view() =~= prev.push(args.deep_view()[i as int]));
            }
        } else {
            proof {
                assert(one.filter(|a: Seq<char>| !is_flag_arg(a)) =~= Seq::<Seq<char>>::empty());
            }
        }
        i = i + 1;
    }
    proof {
        assert(args.deep_view().take(n as int) =~= args.deep_view());
    }
    out
}

/// The first non-flag argument, if any.
pub fn first_non_flag(args: &Vec<String>) -> (r: Option<String>)
    ensures
        match r {
            Some(t) => non_flag_spec(args.deep_view()).len() > 0 && t@ == non_flag_spec(
                args.deep_view(),
            )[0],
            None => non_flag_spec(args.deep_view()).len() == 0,
        },
{
    let mut rest: Vec<String> = non_flag_args(args);
    if rest.len() == 0 {
        None
    } else {
        let first: String = rest.remove(0);
        proof {
            assert(first@ == non_flag_spec(args.deep_view())[0]);
        }
        Some(first)
    }
}

/// The listing builtin's options: show hidden entries, long format, and
/// the path to list — the first non-flag argument, or the current
/// directory.
pub fn ls_options(args: &Vec<String>) -> (r: (bool, bool, String))
    ensures
        r.0 == has_arg(args.deep_view(), "-a"@),
        r.1 == has_arg(args.deep_view(), "-l"@),
        r.2@ == if non_flag_spec(args.deep_view()).len() > 0 {
            non_flag_spec(args.deep_view())[0]
        } else {
            "."@
        },
{
    let show_all: bool = contains_flag(args, "-a");
    let long_format: bool = contains_flag(args, "-l");
    let path: String = match first_non_flag(args) {
        Some(p) => p,
        None => String::from_str("."),
    };
    (show_all, long_format, path)
}

/// The directory-creation builtin's request: create parents, and the
/// directories named.
pub fn mkdir_request(args: &Vec<String>) -> (r: (bool, Vec<String>))
    ensures
        r.0 == has_arg(args.deep_view(), "-p"@),
        r.1.deep_view() == non_flag_spec(args.deep_view()),
{
    (contains_flag(args, "-p"), non_flag_args(args))
}

/// The removal builtin's request: remove recursively, and the paths
/// named.
pub fn rm_request(args: &Vec<String>) -> (r: (bool, Vec<String>))
    ensures
        r.0 == (has_arg(args.deep_view(), "-r"@) || has_arg(args.deep_view(), "-R"@)),
        r.1.deep_view() == non_flag_spec(args.deep_view()),
{
    let recursive: bool = contains_flag(args, "-r") || contains_flag(args, "-R");
    (recursive, non_flag_args(args))
}

/// The move builtin's request: the source and destination, or the error
/// for a missing operand.
pub fn mv_request(args: &Vec<String>) -> (r: Result<(String, String), ShellError>)
    ensures
        r is Ok <==> args.deep_view().len() >= 2,
        r matches Ok(pair) ==> pair.0@ == args.deep_view()[0] && pair.1@ == args.deep_view()[1],
        r matches Err(e) ==> (e matches ShellError::Builtin(m) && m@
            == "mv: missing destination file operand"@),
{
    if args.len() < 2 {
        Err(ShellError::Builtin(String::from_str("mv: missing destination file operand")))
    } else {
        let source: String = String::from_str(args[0].as_str());
        let dest: String = String::from_str(args[1].as_str());
        Ok((source, dest))
    }
}

/// What creating a directory comes to, given whether the path exists.
#[derive(Clone, Copy, Debug, PartialEq, Eq, Structural)]
pub enum MkdirAction {
    /// The path exists and parents were not asked for: refuse.
    RefuseExisting,
    /// The path exists and parents were asked for: succeed silently.
    KeepExisting,
    /// Create the directory and its missing parents.
    CreateWithParents,
    /// Create the one directory.
    Create,
}

/// What creating a directory comes to: an existing path is refused
/// without the parents flag and kept silently with it; a missing one is
/// created, with parents exactly when asked.
pub open spec fn create_directory_action_spec(exists: bool, create_parents: bool) -> MkdirAction {
    if exists {
        if create_parents {
            MkdirAction::KeepExisting
        } else {
            MkdirAction::RefuseExisting
        }
    } else {
        if create_parents {
            MkdirAction::CreateWithParents
        } else {
            MkdirAction::Create
        }
    }
}

/// Decides what creating a directory comes to.
pub fn create_directory_action(exists: bool, create_parents: bool) -> (r: MkdirAction)
    ensures
        r == create_directory_action_spec(exists, create_parents),
{
    if exists {
        if create_parents {
            MkdirAction::KeepExisting
        } else {
            MkdirAction::RefuseExisting
        }
    } else {
        if create_parents {
            MkdirAction::CreateWithParents
        } else {
            MkdirAction::Create
        }
    }
}

/// What touching a file comes to.
#[derive(Clone, Copy, Debug, PartialEq, Eq, Structural)]
pub enum TouchAction {
    /// The file exists: open it for writing to update its timestamp.
    UpdateTimestamp,
    /// The file is missing and creation was declined: do nothing.
    SkipMissing,
    /// Create the file.
    CreateFile,
}

/// What touching a file comes to: an existing file has its timestamp
/// updated; a missing one is created unless creation was declined.
pub open spec fn touch_action_spec(exists: bool, no_create: bool) -> TouchAction {
    if exists {
        TouchAction::UpdateTimestamp
    } else if no_create {
        TouchAction::SkipMissing
    } else {
        TouchAction::CreateFile
    }
}

/// Decides what touching a file comes to.
pub fn touch_action(exists: bool, no_create: bool) -> (r: TouchAction)
    ensures
        r == touch_action_spec(exists, no_create),
{
    if exists {
        TouchAction::UpdateTimestamp
    } else if no_create {
        TouchAction::SkipMissing
    } else {
        TouchAction::CreateFile
    }
}

/// What removing a path comes to.
#[derive(Clone, Copy, Debug, PartialEq, Eq, Structural)]
pub enum RemoveAction {
    /// The path is missing and force is set: succeed silently.
    SkipMissing,
    /// The path is missing: refuse.
    RefuseMissing,
    /// Remove the directory and everything in it.
    RemoveTree,
    /// Remove the directory only if it is empty.
    RemoveEmptyDir,
    /// A directory without the recursive or directory flag: refuse.
    RefuseDirectory,
    /// Remove the file.
    RemoveFile,
}

/// What removing a path comes to: a missing path is refused unless
/// forced; a directory needs the recursive flag for its contents or the
/// directory flag when empty; a file is removed.
pub open spec fn remove_path_action_spec(
    exists: bool,
    is_dir: bool,
    recursive: bool,
    force: bool,
    dir_only: bool,
) -> RemoveAction {
    if !exists {
        if force {
            RemoveAction::SkipMissing
        } else {
            RemoveAction::RefuseMissing
        }
    } else if is_dir {
        if recursive {
            RemoveAction::RemoveTree
        } else if dir_only {
            RemoveAction::RemoveEmptyDir
        } else {
            RemoveAction::RefuseDirectory
        }
    } else {
        RemoveAction::RemoveFile
    }
}

/// Decides what removing a path comes to.
pub fn remove_path_action(
    exists: bool,
    is_dir: bool,
    recursive: bool,
    force: bool,
    dir_only: bool,
) -> (r: RemoveAction)
    ensures
        r == remove_path_action_spec(exists, is_dir, recursive, force, dir_only),
{
    if !exists {
        if force {
            RemoveAction::SkipMissing
        } else {
            RemoveAction::RefuseMissing
        }
    } else if is_dir {
        if recursive {
            RemoveAction::RemoveTree
        } else if dir_only {
            RemoveAction::RemoveEmptyDir
        } else {
            RemoveAction::RefuseDirectory
        }
    } else {
        RemoveAction::RemoveFile
    }
}

/// What removing an empty directory comes to.
#[derive(Clone, Copy, Debug, PartialEq, Eq, Structural)]
pub enum RmdirAction {
    /// The path is missing: refuse.
    RefuseMissing,
    /// The path is not a directory: refuse.
    RefuseNotDirectory,
    /// The directory is not empty: refuse.
    RefuseNotEmpty,
    /// Remove the directory.
    RemoveDir,
}

/// What removing an empty directory comes to: refuse a missing path, a
/// non-directory, or a non-empty directory; remove otherwise.
pub open spec fn remove_directory_action_spec(
    exists: bool,
    is_dir: bool,
    is_empty: bool,
) -> RmdirAction {
    if !exists {
        RmdirAction::RefuseMissing
    } else if !is_dir {
        RmdirAction::RefuseNotDirectory
    } else if !is_empty {
        RmdirAction::RefuseNotEmpty
    } else {
        RmdirAction::RemoveDir
    }
}

/// Decides what removing an empty directory comes to.
pub fn remove_directory_action(exists: bool, is_dir: bool, is_empty: bool) -> (r: RmdirAction)
    ensures
        r == remove_directory_action_spec(exists, is_dir, is_empty),
{
    if !exists {
        RmdirAction::RefuseMissing
    } else if !is_dir {
        RmdirAction::RefuseNotDirectory
    } else if !is_empty {
        RmdirAction::RefuseNotEmpty
    } else {
        RmdirAction::RemoveDir
    }
}

/// What moving a file comes to.
#[derive(Clone, Copy, Debug, PartialEq, Eq, Structural)]
pub enum MoveAction {
    /// The source is missing: refuse.
    RefuseMissing,
    /// The destination exists and overwriting was declined: do nothing.
    SkipExisting,
    /// The destination is a directory: move the file into it under its
    /// own name.
    MoveIntoDirectory,
    /// Rename the source to the destination.
    Rename,
}

/// What moving a file comes to: refuse a missing source, skip an
/// existing destination when overwriting was declined, move a file into
/// an existing directory, and rename otherwise.
pub open spec fn move_file_action_spec(
    source_exists: bool,
    source_is_dir: bool,
    dest_exists: bool,
    dest_is_dir: bool,
    no_clobber: bool,
) -> MoveAction {
    if !source_exists {
        MoveAction::RefuseMissing
    } else if dest_exists && no_clobber {
        MoveAction::SkipExisting
    } else if dest_exists && dest_is_dir && !source_is_dir {
        MoveAction::MoveIntoDirectory
    } else {
        MoveAction::Rename
    }
}

/// Decides what moving a file comes to.
pub fn move_file_action(
    source_exists: bool,
    source_is_dir: bool,
    dest_exists: bool,
    dest_is_dir: bool,
    no_clobber: bool,
) -> (r: MoveAction)
    ensures
        r == move_file_action_spec(source_exists, source_is_dir, dest_exists, dest_is_dir, no_clobber),
{
    if !source_exists {
        MoveAction::RefuseMissing
    } else if dest_exists && no_clobber {
        MoveAction::SkipExisting
    } else if dest_exists && dest_is_dir && !source_is_dir {
        MoveAction::MoveIntoDirectory
    } else {
        MoveAction::Rename
    }
}

/// What changing directory comes to.
#[derive(Clone, Copy, Debug, PartialEq, Eq, Structural)]
pub enum CdAction {
    /// No path was given: go to the home directory.
    GoHome,
    /// The path is missing: refuse.
    RefuseMissing,
    /// The path is not a directory: refuse.
    RefuseNotDirectory,
    /// Change to the path.
    ChangeTo,
}

/// What changing directory comes to: no argument means home; otherwise
/// the path must exist and be a directory.
pub open spec fn cd_action_spec(has_path: bool, exists: bool, is_dir: bool) -> CdAction {
    if !has_path {
        CdAction::GoHome
    } else if !exists {
        CdAction::RefuseMissing
    } else if !is_dir {
        CdAction::RefuseNotDirectory
    } else {
        CdAction::ChangeTo
    }
}

/// Decides what changing directory comes to.
pub fn cd_action(has_path: bool, exists: bool, is_dir: bool) -> (r: CdAction)
    ensures
        r == cd_action_spec(has_path, exists, is_dir),
{
    if !has_path {
        CdAction::GoHome
    } else if !exists {
        CdAction::RefuseMissing
    } else if !is_dir {
        CdAction::RefuseNotDirectory
    } else {
        CdAction::ChangeTo
    }
}

/// What listing a path comes to.
#[derive(Clone, Copy, Debug, PartialEq, Eq, Structural)]
pub enum ListAction {
    /// The path is missing: refuse.
    RefuseMissing,
    /// The path is a file: show its one entry.
    ListFile,
    /// The path is a directory: list its entries.
    ListDirectory,
    /// Neither a file nor a directory: nothing to show.
    Ignore,
}

/// What listing a path comes to: refuse a missing path, show a file as
/// its own entry, and list a directory.
pub open spec fn list_path_action_spec(exists: bool, is_file: bool, is_dir: bool) -> ListAction {
    if !exists {
        ListAction::RefuseMissing
    } else if is_file {
        ListAction::ListFile
    } else if is_dir {
        ListAction::ListDirectory
    } else {
        ListAction::Ignore
    }
}

/// Decides what listing a path comes to.
pub fn list_path_action(exists: bool, is_file: bool, is_dir: bool) -> (r: ListAction)
    ensures
        r == list_path_action_spec(exists, is_file, is_dir),
{
    if !exists {
        ListAction::RefuseMissing
    } else if is_file {
        ListAction::ListFile
    } else if is_dir {
        ListAction::ListDirectory
    } else {
        ListAction::Ignore
    }
}

/// An entry is shown: hidden names — those beginning with a dot — only
/// when all entries were asked for.
pub open spec fn entry_visible(e: FileEntry, show_all: bool) -> bool {
    show_all || !(e.name@.len() > 0 && e.name@[0] == '.')
}

/// Keeps the entries a listing shows, in order: hidden names are dropped
/// unless all entries were asked for.
pub fn visible_entries(entries: Vec<FileEntry>, show_all: bool) -> (r: Vec<FileEntry>)
    ensures
        r@ == entries@.filter(|e: FileEntry| entry_visible(e, show_all)),
{
    let ghost orig = entries@;
    let mut entries: Vec<FileEntry> = entries;
    let total: usize = entries.len();
    let mut out: Vec<FileEntry> = Vec::new();
    let mut i: usize = 0;
    proof {
        assert(orig.take(0) =~= Seq::<FileEntry>::empty());
        reveal_with_fuel(Seq::<_>::filter, 1);
        assert(out@ =~= orig.take(0).filter(|e: FileEntry| entry_visible(e, show_all)));
    }
    while entries.len() > 0
        invariant
            orig.len() == total,
            orig.len() == i + entries@.len(),
            entries@ =~= orig.skip(i as int),
            out@ =~= orig.take(i as int).filter(|e: FileEntry| entry_visible(e, show_all)),
        decreases entries@.len(),
    {
        let ghost prev = out@;
        let ghost one = seq![orig[i as int]];
        proof {
            assert(orig.take(i + 1) =~= orig.take(i as int) + one);
            Seq::<FileEntry>::filter_distributes_over_add(
                orig.take(i as int),
                one,
                |e: FileEntry| entry_visible(e, show_all),
            );
            reveal_with_fuel(Seq::<_>::filter, 2);
            assert(one.drop_last() =~= Seq::<FileEntry>::empty());
        }
        let e: FileEntry = entries.remove(0);
        proof {
            assert(e == orig[i as int]);
            assert(entries@ =~= orig.skip(i + 1));
        }
        let keep: bool = show_all || !starts_with_char(e.name.as_str(), '.');
        if keep {
            proof {
                assert(one.filter(|e: FileEntry| entry_visible(e, show_all)) =~= one);
            }
            out.push(e);
            proof {
                assert(out@ =~= prev.push(orig[i as int]));
            }
        } else {
            proof {
                assert(one.filter(|e: FileEntry| entry_visible(e, show_all)) =~= Seq::<
                    FileEntry,
                >::empty());
            }
        }
        i = i + 1;
    }
    proof {
        assert(orig.take(i as int) =~= orig);
    }
    out
}

/// One line of the shell's listing: the name alone, or, in long format,
/// a type character, the size right-aligned in ten columns, and the name.
pub open spec fn shell_ls_line_spec(e: FileEntry, long_format: bool) -> Seq<char> {
    if long_format {
        seq![if e.is_dir {
            'd'
        } else {
            '-'
        }] + seq![' '] + pad_left_spec(dec_spec(e.size as int), 10, ' ') + seq![' '] + e.name@
            + seq!['\n']
    } else {
        e.name@ + seq!['\n']
    }
}

/// The shell listing's text for these entries, in their order.
pub open spec fn shell_ls_text_spec(entries: Seq<FileEntry>, long_format: bool) -> Seq<char>
    decreases entries.len(),
{
    if entries.len() == 0 {
        Seq::empty()
    } else {
        shell_ls_line_spec(entries[0], long_format) + shell_ls_text_spec(
            entries.drop_first(),
            long_format,
        )
    }
}

fn push_shell_ls_line(out: &mut String, e: &FileEntry, long_format: bool)
    ensures
        final(out)@ == old(out)@ + shell_ls_line_spec(*e, long_format),
{
    if long_format {
        if e.is_dir {
            out.append("d");
        } else {
            out.append("-");
        }
        out.append(" ");
        proof {
            reveal_strlit(" ");
        }
        let size_text = u64_to_string(e.size);
        let size_pad = pad_left(size_text.as_str(), 10, " ");
        out.append(size_pad.as_str());
        out.append(" ");
        out.append(e.name.as_str());
        out.append("\n");
        proof {
            reveal_strlit("d");
            reveal_strlit("-");
            reveal_strlit(" ");
            reveal_strlit("\n");
            assert(out@ =~= old(out)@ + shell_ls_line_spec(*e, long_format));
        }
    } else {
        out.append(e.name.as_str());
        out.append("\n");
        proof {
            reveal_strlit("\n");
            assert(out@ =~= old(out)@ + shell_ls_line_spec(*e, long_format));
        }
    }
}

/// Renders the shell's listing: one line per entry, in the entries'
/// order.
pub fn shell_ls_render(entries: &Vec<FileEntry>, long_format: bool) -> (r: String)
    ensures
        r@ == shell_ls_text_spec(entries@, long_format),
{
    let mut out = String::new();
    let n: usize = entries.len();
    let mut i: usize = 0;
    proof {
        assert(entries@.skip(0) =~= entries@);
    }
    while i < n
        invariant
            n == entries.len(),
            i <= n,
            out@ + shell_ls_text_spec(entries@.skip(i as int), long_format) =~= shell_ls_text_spec(
                entries@,
                long_format,
            ),
        decreases n - i,
    {
        let ghost tail = entries@.skip(i as int);
        proof {
            assert(tail[0] == entries@[i as int]);
            assert(tail.drop_first() =~= entries@.skip(i + 1));
        }
        push_shell_ls_line(&mut out, &entries[i], long_format);
        i = i + 1;
    }
    proof {
        assert(entries@.skip(n as int) =~= Seq::<FileEntry>::empty());
        assert(out@ =~= out@ + Seq::<char>::empty());
    }
    out
}

/// The shell's whole listing for a directory's entries: the hidden ones
/// dropped unless asked for, the rest sorted by name, one line each.
pub fn shell_ls_output(entries: Vec<FileEntry>, show_all: bool, long_format: bool) -> (r: String)
    ensures
        exists|shown: Seq<FileEntry>|
            {
                &&& shown.to_multiset() == entries@.filter(
                    |e: FileEntry| entry_visible(e, show_all),
                ).to_multiset()
                &&& entries_sorted(shown, SortKey::Name, false)
                &&& r@ == #[trigger] shell_ls_text_spec(shown, long_format)
            },
{
    let mut shown: Vec<FileEntry> = visible_entries(entries, show_all);
    sort_entries_by(&mut shown, SortKey::Name, false);
    let text: String = shell_ls_render(&shown, long_format);
    proof {
        assert(text@ == shell_ls_text_spec(shown@, long_format));
    }
    text
}

/// The long-format line of the listing tool, without its newline: the
/// permissions column, the size right-aligned in eight columns (scaled
/// for reading on request), the modification time or `Unknown`, and the
/// name.
pub open spec fn long_format_line_spec(e: FileEntry, human_readable: bool) -> Seq<char> {
    let size_text = if human_readable {
        format_size_spec(e.size as int)
    } else {
        dec_spec(e.size as int)
    };
    let when = match e.modified {
        Some(t) => format_timestamp_spec(t as int),
        None => "Unknown"@,
    };
    permissions_string_spec(e) + seq![' '] + pad_left_spec(size_text, 8, ' ') + seq![' '] + when
        + seq![' '] + e.name@
}

/// Renders the listing tool's long-format line for one entry.
pub fn long_format_line(e: &FileEntry, human_readable: bool) -> (r: String)
    ensures
        r@ == long_format_line_spec(*e, human_readable),
{
    let mut out: String = e.permissions_string();
    proof {
        reveal_strlit(" ");
    }
    out.append(" ");
    let size_text: String = if human_readable {
        crate::ls::format_size_human(e.size)
    } else {
        u64_to_string(e.size)
    };
    let size_pad = pad_left(size_text.as_str(), 8, " ");
    out.append(size_pad.as_str());
    out.append(" ");
    match &e.modified {
        Some(t) => {
            let when = crate::ls::format_timestamp(*t);
            out.append(when.as_str());
        },
        None => {
            out.append("Unknown");
        },
    }
    out.append(" ");
    out.append(e.name.as_str());
    proof {
        reveal_strlit(" ");
        assert(out@ =~= long_format_line_spec(*e, human_readable));
    }
    out
}

} // verus!
